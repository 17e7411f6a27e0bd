use moncomble_os::shell::{process_command, KeyOutcome, Shell, ShellCommand, MAX_COMMAND_LEN, PROMPT};
use moncomble_os::vga::{Screen, VGA_BUFFER_LEN, VGA_WIDTH};

fn blank_screen() -> Screen {
    let mut s = Screen::from_cells(vec![0u8; VGA_BUFFER_LEN]);
    s.clear_screen();
    s
}

fn row(s: &Screen, y: usize) -> String {
    let bytes: Vec<u8> = (0..VGA_WIDTH).map(|x| s.cells()[(y * VGA_WIDTH + x) * 2]).collect();
    String::from_utf8(bytes).unwrap().trim_end().to_string()
}

fn type_line(shell: &mut Shell, screen: &mut Screen, text: &str) -> KeyOutcome {
    for ch in text.chars() {
        shell.handle_char(screen, ch);
    }
    shell.handle_char(screen, '\n')
}

#[test]
fn start_prints_newline_then_prompt() {
    let shell = Shell::new();
    let mut screen = blank_screen();
    shell.start(&mut screen);
    assert_eq!(row(&screen, 0), "");
    assert_eq!(row(&screen, 1), "MONCOMBLE>");
    assert_eq!(screen.cursor(), (PROMPT.len(), 1));
}

#[test]
fn typed_characters_are_echoed_and_kept() {
    let mut shell = Shell::new();
    let mut screen = blank_screen();
    assert_eq!(shell.handle_char(&mut screen, 'a'), KeyOutcome::Inserted);
    assert_eq!(shell.handle_char(&mut screen, ' '), KeyOutcome::Inserted);
    assert_eq!(shell.handle_char(&mut screen, '~'), KeyOutcome::Inserted);
    assert_eq!(shell.command(), b"a ~");
    assert_eq!(row(&screen, 0), "a ~");
}

#[test]
fn other_characters_are_ignored() {
    let mut shell = Shell::new();
    let mut screen = blank_screen();
    assert_eq!(shell.handle_char(&mut screen, '\t'), KeyOutcome::Ignored);
    assert_eq!(shell.handle_char(&mut screen, 'é'), KeyOutcome::Ignored);
    assert_eq!(shell.handle_char(&mut screen, '\x7f'), KeyOutcome::Ignored);
    assert_eq!(shell.command(), b"");
    assert_eq!(screen.cursor(), (0, 0));
}

#[test]
fn backspace_erases_last_character() {
    let mut shell = Shell::new();
    let mut screen = blank_screen();
    shell.handle_char(&mut screen, 'a');
    shell.handle_char(&mut screen, 'b');
    assert_eq!(shell.handle_char(&mut screen, '\x08'), KeyOutcome::Erased);
    assert_eq!(shell.command(), b"a");
    // the echo of backspace, space, backspace goes through the console as bytes
    assert_eq!(screen.cursor(), (5, 0));
    assert_eq!(screen.cells()[4], 0x08);
    assert_eq!(screen.cells()[6], b' ');
    assert_eq!(screen.cells()[8], 0x08);
}

#[test]
fn backspace_on_empty_line_does_nothing() {
    let mut shell = Shell::new();
    let mut screen = blank_screen();
    assert_eq!(shell.handle_char(&mut screen, '\x08'), KeyOutcome::Ignored);
    assert_eq!(screen.cursor(), (0, 0));
}

#[test]
fn full_line_ignores_more_characters() {
    let mut shell = Shell::new();
    let mut screen = blank_screen();
    for _ in 0..(MAX_COMMAND_LEN - 1) {
        assert_eq!(shell.handle_char(&mut screen, 'x'), KeyOutcome::Inserted);
    }
    assert_eq!(shell.handle_char(&mut screen, 'y'), KeyOutcome::Ignored);
    assert_eq!(shell.command().len(), 78);
    assert_eq!(shell.handle_char(&mut screen, '\x08'), KeyOutcome::Erased);
    assert_eq!(shell.command().len(), 77);
}

#[test]
fn empty_line_shows_new_prompt() {
    let mut shell = Shell::new();
    let mut screen = blank_screen();
    assert_eq!(shell.handle_char(&mut screen, '\n'), KeyOutcome::EmptyLine);
    assert_eq!(row(&screen, 1), "MONCOMBLE>");
}

#[test]
fn help_command_lists_commands() {
    let mut shell = Shell::new();
    let mut screen = blank_screen();
    assert_eq!(type_line(&mut shell, &mut screen, "help"), KeyOutcome::Executed(ShellCommand::Help));
    assert_eq!(row(&screen, 0), "help");
    assert_eq!(row(&screen, 1), "Commandes disponibles:");
    assert_eq!(row(&screen, 2), "  help   - Affiche cette aide");
    assert_eq!(row(&screen, 3), "  test   - Commande de test");
    assert_eq!(row(&screen, 4), "  panic  - Teste le panic handler");
    assert_eq!(row(&screen, 5), "MONCOMBLE>");
    assert_eq!(shell.command(), b"");
}

#[test]
fn test_command_prints_message() {
    let mut shell = Shell::new();
    let mut screen = blank_screen();
    assert_eq!(type_line(&mut shell, &mut screen, "test"), KeyOutcome::Executed(ShellCommand::Test));
    assert_eq!(row(&screen, 1), "Ceci est une commande de test!");
    assert_eq!(row(&screen, 2), "MONCOMBLE>");
}

#[test]
fn panic_command_prints_nothing_more() {
    let mut shell = Shell::new();
    let mut screen = blank_screen();
    assert_eq!(type_line(&mut shell, &mut screen, "panic"), KeyOutcome::Executed(ShellCommand::Panic));
    assert_eq!(screen.cursor(), (0, 1));
    assert_eq!(row(&screen, 1), "");
}

#[test]
fn unknown_command_is_reported() {
    let mut shell = Shell::new();
    let mut screen = blank_screen();
    assert_eq!(type_line(&mut shell, &mut screen, "foo bar"), KeyOutcome::Executed(ShellCommand::Unknown));
    assert_eq!(row(&screen, 1), "Commande inconnue: 'foo bar'");
    assert_eq!(row(&screen, 2), "MONCOMBLE>");
}

#[test]
fn commands_are_matched_exactly() {
    let mut screen = blank_screen();
    assert_eq!(process_command("Help", &mut screen), ShellCommand::Unknown);
    assert_eq!(process_command("help ", &mut screen), ShellCommand::Unknown);
    assert_eq!(process_command("tes", &mut screen), ShellCommand::Unknown);
    assert_eq!(process_command("help", &mut screen), ShellCommand::Help);
    assert_eq!(process_command("test", &mut screen), ShellCommand::Test);
    assert_eq!(process_command("panic", &mut screen), ShellCommand::Panic);
}

#[test]
fn edited_line_runs_the_edited_command() {
    let mut shell = Shell::new();
    let mut screen = blank_screen();
    for ch in "tesx".chars() {
        shell.handle_char(&mut screen, ch);
    }
    shell.handle_char(&mut screen, '\x08');
    shell.handle_char(&mut screen, 't');
    assert_eq!(shell.handle_char(&mut screen, '\n'), KeyOutcome::Executed(ShellCommand::Test));
}
