use vstd::prelude::*;

verus! {

/// Longest command line the shell keeps; further characters are dropped.
pub const CMD_MAX: usize = 128;

/// Number of screens whose first visit shows a prompt.
pub const SHELL_SCREENS: usize = 3;

/// The commands the shell knows.
#[derive(Debug, Clone, Copy, PartialEq, Eq, Structural)]
pub enum Command {
    /// An empty line: nothing to do.
    Empty,
    /// `help`: list the commands.
    Help,
    /// `stack`: dump 256 bytes of the stack.
    Stack,
    /// `halt`: stop the machine.
    Halt,
    /// `reboot`: reset through the keyboard controller.
    Reboot,
    /// `gdt`: read the GDT register.
    Gdt,
    /// `sig`: schedule signal 1.
    Sig,
    /// `syscall`: run the system call demonstration.
    Syscall,
    /// `azerty`: switch the keyboard layout.
    Azerty,
    /// Anything else.
    Unknown,
}

/// What the console must do after the shell received a character.
#[derive(Debug, PartialEq, Eq)]
pub enum ShellOutput {
    /// Nothing: the character was dropped.
    Nothing,
    /// Echo the character that was added to the line.
    Echo(char),
    /// Print a backspace: the last character was removed from the line.
    Erase,
    /// Enter was pressed: print a newline, carry out `command` (whose text was
    /// `line`), then print a fresh prompt.
    Run { command: Command, line: Vec<u8> },
}

/// The bytes of an ASCII word.
pub open spec fn word(chars: Seq<char>) -> Seq<u8> {
    chars.map_values(|c: char| c as u8)
}

/// The command a line of input names.
pub open spec fn command_of(line: Seq<u8>) -> Command {
    if line.len() == 0 {
        Command::Empty
    } else if line == word(seq!['h', 'e', 'l', 'p']) {
        Command::Help
    } else if line == word(seq!['s', 't', 'a', 'c', 'k']) {
        Command::Stack
    } else if line == word(seq!['h', 'a', 'l', 't']) {
        Command::Halt
    } else if line == word(seq!['r', 'e', 'b', 'o', 'o', 't']) {
        Command::Reboot
    } else if line == word(seq!['g', 'd', 't']) {
        Command::Gdt
    } else if line == word(seq!['s', 'i', 'g']) {
        Command::Sig
    } else if line == word(seq!['s', 'y', 's', 'c', 'a', 'l', 'l']) {
        Command::Syscall
    } else if line == word(seq!['a', 'z', 'e', 'r', 't', 'y']) {
        Command::Azerty
    } else {
        Command::Unknown
    }
}

fn same_bytes(line: &[u8], word: &[u8]) -> (r: bool)
    ensures
        r == (line@ == word@),
{
    if line.len() != word.len() {
        return false;
    }
    let mut i: usize = 0;
    while i < line.len()
        invariant
            i <= line@.len(),
            line@.len() == word@.len(),
            forall|j: int| 0 <= j < i ==> line@[j] == word@[j],
        decreases line@.len() - i,
    {
        if line[i] != word[i] {
            return false;
        }
        i = i + 1;
    }
    proof {
        assert(line@ =~= word@);
    }
    true
}

/// Recognises the command a line of input names.
pub fn parse_command(line: &[u8]) -> (c: Command)
    ensures
        c == command_of(line@),
{
    proof {
        assert(word(seq!['h', 'e', 'l', 'p']) =~= seq!['h' as u8, 'e' as u8, 'l' as u8, 'p' as u8]);
        assert(word(seq!['s', 't', 'a', 'c', 'k']) =~= seq!['s' as u8, 't' as u8, 'a' as u8, 'c' as u8, 'k' as u8]);
        assert(word(seq!['h', 'a', 'l', 't']) =~= seq!['h' as u8, 'a' as u8, 'l' as u8, 't' as u8]);
        assert(word(seq!['r', 'e', 'b', 'o', 'o', 't']) =~= seq![
            'r' as u8, 'e' as u8, 'b' as u8, 'o' as u8, 'o' as u8, 't' as u8,
        ]);
        assert(word(seq!['g', 'd', 't']) =~= seq!['g' as u8, 'd' as u8, 't' as u8]);
        assert(word(seq!['s', 'i', 'g']) =~= seq!['s' as u8, 'i' as u8, 'g' as u8]);
        assert(word(seq!['s', 'y', 's', 'c', 'a', 'l', 'l']) =~= seq![
            's' as u8, 'y' as u8, 's' as u8, 'c' as u8, 'a' as u8, 'l' as u8, 'l' as u8,
        ]);
        assert(word(seq!['a', 'z', 'e', 'r', 't', 'y']) =~= seq![
            'a' as u8, 'z' as u8, 'e' as u8, 'r' as u8, 't' as u8, 'y' as u8,
        ]);
    }
    if line.len() == 0 {
        Command::Empty
    } else if same_bytes(line, &['h' as u8, 'e' as u8, 'l' as u8, 'p' as u8]) {
        Command::Help
    } else if same_bytes(line, &['s' as u8, 't' as u8, 'a' as u8, 'c' as u8, 'k' as u8]) {
        Command::Stack
    } else if same_bytes(line, &['h' as u8, 'a' as u8, 'l' as u8, 't' as u8]) {
        Command::Halt
    } else if same_bytes(line, &['r' as u8, 'e' as u8, 'b' as u8, 'o' as u8, 'o' as u8, 't' as u8]) {
        Command::Reboot
    } else if same_bytes(line, &['g' as u8, 'd' as u8, 't' as u8]) {
        Command::Gdt
    } else if same_bytes(line, &['s' as u8, 'i' as u8, 'g' as u8]) {
        Command::Sig
    } else if same_bytes(
        line,
        &['s' as u8, 'y' as u8, 's' as u8, 'c' as u8, 'a' as u8, 'l' as u8, 'l' as u8],
    ) {
        Command::Syscall
    } else if same_bytes(line, &['a' as u8, 'z' as u8, 'e' as u8, 'r' as u8, 't' as u8, 'y' as u8]) {
        Command::Azerty
    } else {
        Command::Unknown
    }
}

/// The line-editing shell: the command line typed so far, and which screens
/// have already shown their first prompt.
pub struct Shell {
    buffer: [u8; CMD_MAX],
    len: usize,
    initialized: [bool; SHELL_SCREENS],
}

impl Shell {
    /// The shell's invariant: the line fits in the buffer.
    #[verifier::type_invariant]
    pub closed spec fn wf(&self) -> bool {
        self.len <= CMD_MAX
    }

    /// The command line typed so far.
    pub closed spec fn line(&self) -> Seq<u8> {
        self.buffer@.take(self.len as int)
    }

    /// For each screen, whether it has shown its first prompt.
    pub closed spec fn initialized(&self) -> Seq<bool> {
        self.initialized@
    }

    /// Every shell keeps one first-prompt mark per screen.
    pub proof fn lemma_screens(&self)
        ensures
            self.initialized().len() == SHELL_SCREENS,
    {
    }

    /// An empty line; screen 0 is prompted at start-up, screens 1 and 2 not yet.
    pub fn new() -> (s: Shell)
        ensures
            s.wf(),
            s.line() == Seq::<u8>::empty(),
            s.initialized() == seq![true, false, false],
    {
        let s = Shell { buffer: [0u8; CMD_MAX], len: 0, initialized: [true, false, false] };
        proof {
            assert(s.line() =~= Seq::<u8>::empty());
            assert(s.initialized() =~= seq![true, false, false]);
        }
        s
    }

    /// The text that re-shows the prompt and the line typed so far: `"> "` followed
    /// by each byte of the line as a character.
    pub fn reprompt(&self) -> (text: Vec<char>)
        ensures
            text@ == seq!['>', ' '] + self.line().map_values(|b: u8| b as char),
    {
        proof {
            use_type_invariant(&*self);
        }
        let mut text: Vec<char> = Vec::new();
        text.push('>');
        text.push(' ');
        let mut i: usize = 0;
        while i < self.len
            invariant
                self.wf(),
                i <= self.len,
                text@ == seq!['>', ' '] + self.line().take(i as int).map_values(|b: u8| b as char),
            decreases self.len - i,
        {
            text.push(self.buffer[i] as char);
            proof {
                assert(self.line().take(i as int + 1).map_values(|b: u8| b as char) =~= self.line().take(
                    i as int,
                ).map_values(|b: u8| b as char).push(self.buffer@[i as int] as char));
            }
            i = i + 1;
        }
        proof {
            assert(self.line().take(self.len as int) =~= self.line());
        }
        text
    }

    /// Handles one character from the keyboard. Enter hands the finished line to the
    /// caller and starts a new one; backspace removes the last character if there is
    /// one; any other character is appended and echoed while the line has room.
    pub fn on_char(&mut self, c: char) -> (out: ShellOutput)
        ensures
            final(self).wf(),
            final(self).initialized() == old(self).initialized(),
            c == '\n' ==> final(self).line() == Seq::<u8>::empty() && (out matches ShellOutput::Run { command, line }
                && line@ == old(self).line() && command == command_of(old(self).line())),
            c == '\x08' && old(self).line().len() > 0 ==> out == ShellOutput::Erase
                && final(self).line() == old(self).line().drop_last(),
            c == '\x08' && old(self).line().len() == 0 ==> out == ShellOutput::Nothing
                && final(self).line() == old(self).line(),
            c != '\n' && c != '\x08' && old(self).line().len() < CMD_MAX ==> out == ShellOutput::Echo(c)
                && final(self).line() == old(self).line().push(c as u8),
            c != '\n' && c != '\x08' && old(self).line().len() >= CMD_MAX ==> out == ShellOutput::Nothing
                && final(self).line() == old(self).line(),
    {
        proof {
            use_type_invariant(&*self);
        }
        if c == '\n' {
            let mut line: Vec<u8> = Vec::new();
            let mut i: usize = 0;
            while i < self.len
                invariant
                    self.wf(),
                    self.line() == old(self).line(),
                    i <= self.len,
                    line@ == self.line().take(i as int),
                decreases self.len - i,
            {
                line.push(self.buffer[i]);
                proof {
                    assert(self.line().take(i as int + 1) =~= self.line().take(i as int).push(self.buffer@[i as int]));
                }
                i = i + 1;
            }
            proof {
                assert(line@ =~= old(self).line());
            }
            let command = parse_command(line.as_slice());
            self.len = 0;
            proof {
                assert(self.line() =~= Seq::<u8>::empty());
            }
            ShellOutput::Run { command, line }
        } else if c == '\x08' {
            if self.backspace() {
                ShellOutput::Erase
            } else {
                ShellOutput::Nothing
            }
        } else {
            if self.len < CMD_MAX {
                self.buffer[self.len] = c as u8;
                self.len += 1;
                proof {
                    assert(self.line() =~= old(self).line().push(c as u8));
                }
                ShellOutput::Echo(c)
            } else {
                ShellOutput::Nothing
            }
        }
    }

    fn backspace(&mut self) -> (erased: bool)
        ensures
            final(self).wf(),
            final(self).initialized() == old(self).initialized(),
            erased == (old(self).line().len() > 0),
            erased ==> final(self).line() == old(self).line().drop_last(),
            !erased ==> final(self).line() == old(self).line(),
    {
        proof {
            use_type_invariant(&*self);
        }
        if self.len > 0 {
            self.len -= 1;
            proof {
                assert(self.line() =~= old(self).line().drop_last());
            }
            true
        } else {
            false
        }
    }

    /// Called when the console switches to `screen`: returns whether a prompt must be
    /// shown, which happens on the first visit of each screen only.
    pub fn on_switch(&mut self, screen: usize) -> (show_prompt: bool)
        requires
            screen < SHELL_SCREENS,
        ensures
            final(self).wf(),
            final(self).line() == old(self).line(),
            old(self).initialized().len() == SHELL_SCREENS,
            final(self).initialized().len() == SHELL_SCREENS,
            show_prompt == !old(self).initialized()[screen as int],
            final(self).initialized() == old(self).initialized().update(screen as int, true),
    {
        proof {
            use_type_invariant(&*self);
        }
        if !self.initialized[screen] {
            self.initialized[screen] = true;
            true
        } else {
            proof {
                assert(old(self).initialized().update(screen as int, true) =~= old(self).initialized());
            }
            false
        }
    }
}

/// The command line never grows past `CMD_MAX` bytes.
pub proof fn law_line_bounded(s: &Shell)
    requires
        s.wf(),
    ensures
        s.line().len() <= CMD_MAX,
{
}

/// Each screen shows its first prompt once: after a switch to a screen, switching
/// to it again asks for no prompt.
pub proof fn law_prompt_once(initialized: Seq<bool>, screen: int)
    requires
        0 <= screen < initialized.len(),
    ensures
        initialized.update(screen, true)[screen],
{
}

} // verus!
