//! The command shell: a line editor fed one character at a time, and the
//! commands it runs when a line is submitted.
//!
//! The shell writes its echo, its prompt and the commands' answers on a
//! `Screen`; reading the keyboard is left to the caller, which hands each
//! character to `Shell::handle_char`.

use vstd::prelude::*;
use vstd::string::StringSliceAdditionalSpecFns;
use vstd::utf8::*;
use crate::vga::{Screen, ScreenView, put_bytes, put_char, print_line};

verus! {

/// Size of the command buffer; a command holds at most one byte less.
pub const MAX_COMMAND_LEN: usize = 79;

/// The text shown before each command line.
pub const PROMPT: &'static str = "MONCOMBLE> ";

/// What a submitted command line asks for.
#[derive(Debug, Clone, Copy, PartialEq, Eq, Structural)]
pub enum ShellCommand {
    /// `help`: list the commands.
    Help,
    /// `test`: print a test message.
    Test,
    /// `panic`: the kernel must panic.
    Panic,
    /// Anything else: reported as unknown.
    Unknown,
}

/// What one character did to the shell.
#[derive(Debug, Clone, Copy, PartialEq, Eq, Structural)]
pub enum KeyOutcome {
    /// Nothing changed.
    Ignored,
    /// The character was appended to the command line and echoed.
    Inserted,
    /// The last character of the command line was erased.
    Erased,
    /// An empty line was submitted; a new prompt was shown.
    EmptyLine,
    /// The command line was submitted and run. After `ShellCommand::Panic`
    /// the caller must panic; otherwise a new prompt was shown.
    Executed(ShellCommand),
}

/// The characters a command line accepts: space and the printable ASCII characters.
pub open spec fn is_line_char(ch: char) -> bool {
    0x20 <= ch as u32 <= 0x7e
}

/// A command line: fewer bytes than the buffer holds, all of them accepted characters.
pub open spec fn command_wf(command: Seq<u8>) -> bool {
    &&& command.len() < MAX_COMMAND_LEN
    &&& forall|i: int| 0 <= i < command.len() ==> 0x20 <= #[trigger] command[i] <= 0x7e
}

/// The command that a submitted line names.
pub open spec fn command_for(command: Seq<u8>) -> ShellCommand {
    if command == "help".spec_bytes() {
        ShellCommand::Help
    } else if command == "test".spec_bytes() {
        ShellCommand::Test
    } else if command == "panic".spec_bytes() {
        ShellCommand::Panic
    } else {
        ShellCommand::Unknown
    }
}

/// The screen after the shell answers a submitted command.
pub open spec fn respond(s: ScreenView, command: Seq<u8>) -> ScreenView {
    match command_for(command) {
        ShellCommand::Help => print_line(
            print_line(
                print_line(
                    print_line(s, "Commandes disponibles:".spec_bytes()),
                    "  help   - Affiche cette aide".spec_bytes(),
                ),
                "  test   - Commande de test".spec_bytes(),
            ),
            "  panic  - Teste le panic handler".spec_bytes(),
        ),
        ShellCommand::Test => print_line(s, "Ceci est une commande de test!".spec_bytes()),
        ShellCommand::Panic => s,
        ShellCommand::Unknown => print_line(
            put_bytes(put_bytes(s, "Commande inconnue: '".spec_bytes()), command),
            "'".spec_bytes(),
        ),
    }
}

/// The command line after one character.
pub open spec fn next_command(command: Seq<u8>, ch: char) -> Seq<u8> {
    if ch == '\n' {
        Seq::empty()
    } else if ch == '\x08' {
        if command.len() > 0 {
            command.drop_last()
        } else {
            command
        }
    } else if is_line_char(ch) && command.len() < MAX_COMMAND_LEN - 1 {
        command.push(ch as u8)
    } else {
        command
    }
}

/// What one character does to a command line.
pub open spec fn key_outcome(command: Seq<u8>, ch: char) -> KeyOutcome {
    if ch == '\n' {
        if command.len() == 0 {
            KeyOutcome::EmptyLine
        } else {
            KeyOutcome::Executed(command_for(command))
        }
    } else if ch == '\x08' {
        if command.len() > 0 {
            KeyOutcome::Erased
        } else {
            KeyOutcome::Ignored
        }
    } else if is_line_char(ch) && command.len() < MAX_COMMAND_LEN - 1 {
        KeyOutcome::Inserted
    } else {
        KeyOutcome::Ignored
    }
}

/// The screen after one character: Enter echoes a newline, runs a non-empty
/// command and shows a new prompt (not after `panic`); backspace prints
/// backspace, space, backspace; an accepted character is echoed.
pub open spec fn key_screen(command: Seq<u8>, s: ScreenView, ch: char) -> ScreenView {
    if ch == '\n' {
        let s1 = put_char(s, 10);
        if command.len() == 0 {
            put_bytes(s1, PROMPT.spec_bytes())
        } else if command_for(command) == ShellCommand::Panic {
            s1
        } else {
            put_bytes(respond(s1, command), PROMPT.spec_bytes())
        }
    } else if ch == '\x08' {
        if command.len() > 0 {
            put_bytes(s, "\x08 \x08".spec_bytes())
        } else {
            s
        }
    } else if is_line_char(ch) && command.len() < MAX_COMMAND_LEN - 1 {
        put_char(s, ch as u8)
    } else {
        s
    }
}

/// Bytes of ASCII characters are valid UTF-8.
proof fn lemma_ascii_is_utf8(bytes: Seq<u8>)
    requires
        forall|i: int| 0 <= i < bytes.len() ==> #[trigger] bytes[i] < 0x80,
    ensures
        valid_utf8(bytes),
    decreases bytes.len(),
{
    if bytes.len() > 0 {
        let c = bytes[0];
        assert(c & 0x7F <= 0x7F) by (bit_vector);
        let rest = bytes.subrange(1, bytes.len() as int);
        assert(pop_first_scalar(bytes) =~= rest);
        assert forall|i: int| 0 <= i < rest.len() implies #[trigger] rest[i] < 0x80 by {
            assert(rest[i] == bytes[i + 1]);
        }
        lemma_ascii_is_utf8(rest);
    }
}

/// The string that the bytes spell, if they are valid UTF-8
/// (`core::str::from_utf8`, whose documentation promises `Ok` exactly for
/// valid UTF-8, with the same bytes).
#[verifier::external_body]
fn str_from_utf8(bytes: &[u8]) -> (r: Option<&str>)
    ensures
        r is Some <==> valid_utf8(bytes@),
        r matches Some(s) ==> s.spec_bytes() == bytes@,
{
    core::str::from_utf8(bytes).ok()
}

/// Whether two byte strings are equal.
fn bytes_equal(a: &[u8], b: &[u8]) -> (r: bool)
    ensures
        r == (a@ == b@),
{
    if a.len() != b.len() {
        return false;
    }
    let mut i: usize = 0;
    while i < a.len()
        invariant
            a@.len() == b@.len(),
            i <= a@.len(),
            forall|j: int| 0 <= j < i ==> a@[j] == b@[j],
        decreases a@.len() - i,
    {
        if a[i] != b[i] {
            return false;
        }
        i = i + 1;
    }
    assert(a@ =~= b@);
    true
}

/// Runs a command: prints its answer and says which command it was. The
/// `panic` command prints nothing: the caller must panic.
pub fn process_command(command: &str, screen: &mut Screen) -> (r: ShellCommand)
    ensures
        r == command_for(command.spec_bytes()),
        final(screen)@ == respond(old(screen)@, command.spec_bytes()),
{
    let bytes = command.as_bytes();
    if bytes_equal(bytes, "help".as_bytes()) {
        screen.println("Commandes disponibles:");
        screen.println("  help   - Affiche cette aide");
        screen.println("  test   - Commande de test");
        screen.println("  panic  - Teste le panic handler");
        ShellCommand::Help
    } else if bytes_equal(bytes, "test".as_bytes()) {
        screen.println("Ceci est une commande de test!");
        ShellCommand::Test
    } else if bytes_equal(bytes, "panic".as_bytes()) {
        ShellCommand::Panic
    } else {
        screen.print("Commande inconnue: '");
        screen.print(command);
        screen.println("'");
        ShellCommand::Unknown
    }
}

/// The line editor of the shell: the command typed so far.
pub struct Shell {
    command: Vec<u8>,
}

impl View for Shell {
    type V = Seq<u8>;

    closed spec fn view(&self) -> Seq<u8> {
        self.command@
    }
}

impl Shell {
    #[verifier::type_invariant]
    spec fn inv(self) -> bool {
        command_wf(self.command@)
    }

    /// A shell with an empty command line.
    pub fn new() -> (r: Shell)
        ensures
            r@ == Seq::<u8>::empty(),
    {
        Shell { command: Vec::new() }
    }

    /// The command typed so far.
    pub fn command(&self) -> (r: &[u8])
        ensures
            r@ == self@,
            command_wf(r@),
    {
        proof {
            use_type_invariant(self);
        }
        self.command.as_slice()
    }

    /// Starts a session: a newline, then the first prompt.
    pub fn start(&self, screen: &mut Screen)
        ensures
            final(screen)@ == put_bytes(put_char(old(screen)@, 10), PROMPT.spec_bytes()),
    {
        screen.putchar(10);
        screen.print(PROMPT);
    }

    /// Handles one character typed at the keyboard.
    pub fn handle_char(&mut self, screen: &mut Screen, ch: char) -> (r: KeyOutcome)
        ensures
            final(self)@ == next_command(old(self)@, ch),
            r == key_outcome(old(self)@, ch),
            final(screen)@ == key_screen(old(self)@, old(screen)@, ch),
    {
        proof {
            use_type_invariant(&*self);
        }
        if ch == '\n' {
            screen.putchar(10);
            if self.command.len() == 0 {
                screen.print(PROMPT);
                return KeyOutcome::EmptyLine;
            }
            proof {
                lemma_ascii_is_utf8(self.command@);
            }
            let outcome = match str_from_utf8(self.command.as_slice()) {
                Some(text) => process_command(text, screen),
                None => {
                    screen.println("Erreur: Commande non UTF-8 valide.");
                    ShellCommand::Unknown
                },
            };
            self.command = Vec::new();
            if outcome != ShellCommand::Panic {
                screen.print(PROMPT);
            }
            KeyOutcome::Executed(outcome)
        } else if ch == '\x08' {
            if self.command.len() > 0 {
                let mut command = Vec::new();
                core::mem::swap(&mut command, &mut self.command);
                command.pop();
                self.command = command;
                screen.print("\x08 \x08");
                KeyOutcome::Erased
            } else {
                KeyOutcome::Ignored
            }
        } else {
            let code = ch as u32;
            if 0x20 <= code && code <= 0x7e && self.command.len() < MAX_COMMAND_LEN - 1 {
                let byte = code as u8;
                let mut command = Vec::new();
                core::mem::swap(&mut command, &mut self.command);
                command.push(byte);
                self.command = command;
                screen.putchar(byte);
                KeyOutcome::Inserted
            } else {
                KeyOutcome::Ignored
            }
        }
    }
}

/// Every character keeps the command line well formed: it never outgrows the
/// buffer and holds only space and printable ASCII.
pub proof fn lemma_command_stays_wf(command: Seq<u8>, ch: char)
    requires
        command_wf(command),
    ensures
        command_wf(next_command(command, ch)),
{
    let n = next_command(command, ch);
    if ch != '\n' && ch != '\x08' && is_line_char(ch) && command.len() < MAX_COMMAND_LEN - 1 {
        assert forall|i: int| 0 <= i < n.len() implies 0x20 <= #[trigger] n[i] <= 0x7e by {
            if i < command.len() {
                assert(n[i] == command[i]);
            }
        }
    } else if ch == '\x08' && command.len() > 0 {
        assert forall|i: int| 0 <= i < n.len() implies 0x20 <= #[trigger] n[i] <= 0x7e by {
            assert(n[i] == command[i]);
        }
    }
}

/// An accepted character is stored exactly as typed: the command line grows
/// by one byte, the character's code, and keeps what it held before.
pub proof fn lemma_insert_stores_typed_char(command: Seq<u8>, ch: char)
    requires
        key_outcome(command, ch) == KeyOutcome::Inserted,
    ensures
        next_command(command, ch).len() == command.len() + 1,
        next_command(command, ch)[command.len() as int] as u32 == ch as u32,
        next_command(command, ch).subrange(0, command.len() as int) == command,
{
    assert(next_command(command, ch).subrange(0, command.len() as int) =~= command);
}

/// Backspace erases exactly the character typed just before it.
pub proof fn lemma_backspace_undoes_insert(command: Seq<u8>, ch: char)
    requires
        key_outcome(command, ch) == KeyOutcome::Inserted,
    ensures
        next_command(next_command(command, ch), '\x08') == command,
        key_outcome(next_command(command, ch), '\x08') == KeyOutcome::Erased,
{
    assert(next_command(command, ch).drop_last() =~= command);
}

/// Backspace on a non-empty line removes exactly its last byte and keeps
/// the others.
pub proof fn lemma_backspace_removes_last(command: Seq<u8>)
    requires
        command.len() > 0,
    ensures
        next_command(command, '\x08').len() == command.len() - 1,
        forall|i: int|
            0 <= i < command.len() - 1 ==> #[trigger] next_command(command, '\x08')[i] == command[i],
        key_outcome(command, '\x08') == KeyOutcome::Erased,
{
}

/// Enter always leaves an empty command line behind, and runs the command
/// that was typed exactly when the line is not empty.
pub proof fn lemma_enter_submits(command: Seq<u8>)
    ensures
        next_command(command, '\n') == Seq::<u8>::empty(),
        command.len() == 0 ==> key_outcome(command, '\n') == KeyOutcome::EmptyLine,
        command.len() > 0 ==> key_outcome(command, '\n') == KeyOutcome::Executed(
            command_for(command),
        ),
{
}

/// A full command line ignores further characters, except Enter and backspace.
pub proof fn lemma_full_line_ignores(command: Seq<u8>, ch: char)
    requires
        command.len() == MAX_COMMAND_LEN - 1,
        ch != '\n',
        ch != '\x08',
    ensures
        next_command(command, ch) == command,
        key_outcome(command, ch) == KeyOutcome::Ignored,
{
}

} // verus!
