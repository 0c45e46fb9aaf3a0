//! The arguments of the command line, and the options they ask for.

use vstd::prelude::*;
use vstd::string::{StrSliceExecFns, StringExecFns};
use crate::options::{ConfigError, Options, OptionsBuilder, OptionsBuilderView, OptionsView};
use crate::text::{chars_of, trim, trimmed};
use crate::wrap::line_views;

verus! {

/// A named appearance of the figure. It decides the eyes and the tongue.
#[derive(Debug, Clone, Copy, PartialEq, Eq, Structural)]
pub enum Mode {
    Borg,
    Dead,
    Greedy,
    Paranoia,
    Stoned,
    Tired,
    Wired,
    Youthful,
}

impl Mode {
    /// The eyes of this mode.
    pub open spec fn eye_string(self) -> Seq<char> {
        match self {
            Mode::Borg => "=="@,
            Mode::Dead => "xx"@,
            Mode::Greedy => "$$"@,
            Mode::Paranoia => "@@"@,
            Mode::Stoned => "**"@,
            Mode::Tired => "--"@,
            Mode::Wired => "OO"@,
            Mode::Youthful => ".."@,
        }
    }

    /// The tongue of this mode: it hangs out of the dead and the stoned.
    pub open spec fn tongue_string(self) -> Seq<char> {
        match self {
            Mode::Dead | Mode::Stoned => "U "@,
            _ => "  "@,
        }
    }

    /// The eyes of this mode.
    pub fn eyes(self) -> (eyes: &'static str)
        ensures
            eyes@ == self.eye_string(),
    {
        match self {
            Mode::Borg => "==",
            Mode::Dead => "xx",
            Mode::Greedy => "$$",
            Mode::Paranoia => "@@",
            Mode::Stoned => "**",
            Mode::Tired => "--",
            Mode::Wired => "OO",
            Mode::Youthful => "..",
        }
    }

    /// The tongue of this mode.
    pub fn tongue(self) -> (tongue: &'static str)
        ensures
            tongue@ == self.tongue_string(),
    {
        match self {
            Mode::Dead | Mode::Stoned => "U ",
            _ => "  ",
        }
    }
}

/// The arguments of the command line.
pub struct Args {
    /// Appearance of the eyes: two characters.
    pub eye_string: String,
    /// Path to a cowfile, or the name of a built-in one.
    pub cowfile: String,
    /// List the built-in cowfiles.
    pub list: bool,
    /// Disable word wrapping.
    pub disable_wrap: bool,
    /// Appearance of the tongue: two characters.
    pub tongue_string: String,
    /// The width at which the text is wrapped.
    pub max_width: usize,
    /// Take a built-in cowfile at random.
    pub random: bool,
    /// Think instead of speaking.
    pub think: bool,
    pub mode_borg: bool,
    pub mode_dead: bool,
    pub mode_greedy: bool,
    pub mode_paranoia: bool,
    pub mode_stoned: bool,
    pub mode_tired: bool,
    pub mode_wired: bool,
    pub mode_youthful: bool,
    /// The words of the text.
    pub text: Vec<String>,
}

/// The arguments as contracts see them.
pub struct ArgsView {
    pub eye_string: Seq<char>,
    pub cowfile: Seq<char>,
    pub list: bool,
    pub disable_wrap: bool,
    pub tongue_string: Seq<char>,
    pub max_width: nat,
    pub random: bool,
    pub think: bool,
    pub mode_borg: bool,
    pub mode_dead: bool,
    pub mode_greedy: bool,
    pub mode_paranoia: bool,
    pub mode_stoned: bool,
    pub mode_tired: bool,
    pub mode_wired: bool,
    pub mode_youthful: bool,
    pub text: Seq<Seq<char>>,
}

impl View for Args {
    type V = ArgsView;

    open spec fn view(&self) -> ArgsView {
        ArgsView {
            eye_string: self.eye_string@,
            cowfile: self.cowfile@,
            list: self.list,
            disable_wrap: self.disable_wrap,
            tongue_string: self.tongue_string@,
            max_width: self.max_width as nat,
            random: self.random,
            think: self.think,
            mode_borg: self.mode_borg,
            mode_dead: self.mode_dead,
            mode_greedy: self.mode_greedy,
            mode_paranoia: self.mode_paranoia,
            mode_stoned: self.mode_stoned,
            mode_tired: self.mode_tired,
            mode_wired: self.mode_wired,
            mode_youthful: self.mode_youthful,
            text: line_views(self.text@),
        }
    }
}

/// `words` with `separator` between each two of them.
pub open spec fn joined(words: Seq<Seq<char>>, separator: Seq<char>) -> Seq<char>
    decreases words.len(),
{
    if words.len() == 0 {
        Seq::empty()
    } else if words.len() == 1 {
        words[0]
    } else {
        joined(words.drop_last(), separator) + separator + words.last()
    }
}

/// `itertools::join` on strings: all of them in order, with the separator
/// between each two and nowhere else.
#[verifier::external_body]
fn join(words: &Vec<String>, separator: &str) -> (text: String)
    ensures
        text@ == joined(line_views(words@), separator@),
{
    itertools::join(words, separator)
}

impl ArgsView {
    /// The mode asked for: the first of the modes, in their order, whose flag
    /// is set.
    pub open spec fn mode(self) -> Option<Mode> {
        if self.mode_borg {
            Some(Mode::Borg)
        } else if self.mode_dead {
            Some(Mode::Dead)
        } else if self.mode_greedy {
            Some(Mode::Greedy)
        } else if self.mode_paranoia {
            Some(Mode::Paranoia)
        } else if self.mode_stoned {
            Some(Mode::Stoned)
        } else if self.mode_tired {
            Some(Mode::Tired)
        } else if self.mode_wired {
            Some(Mode::Wired)
        } else if self.mode_youthful {
            Some(Mode::Youthful)
        } else {
            None
        }
    }

    /// The eyes asked for: those of the mode, which comes before an eye
    /// string of one's own.
    pub open spec fn eyes(self) -> Seq<char> {
        match self.mode() {
            Some(mode) => mode.eye_string(),
            None => self.eye_string,
        }
    }

    /// The tongue asked for: that of the mode, which comes before a tongue
    /// string of one's own.
    pub open spec fn tongue(self) -> Seq<char> {
        match self.mode() {
            Some(mode) => mode.tongue_string(),
            None => self.tongue_string,
        }
    }

    /// The text: the words with a space between each two.
    pub open spec fn message(self) -> Seq<char> {
        joined(self.text, " "@)
    }

    /// The settings that these arguments give, with `template` for the
    /// cowfile and `text` for the text.
    pub open spec fn settings(self, template: Seq<char>, text: Seq<char>) -> OptionsBuilderView {
        OptionsBuilderView {
            word_wrap: Some(!self.disable_wrap),
            print_width: Some(self.max_width),
            eyes: Some((self.eyes()[0], self.eyes()[1])),
            tongue: Some(self.tongue()),
            thought: Some(self.think),
            template: Some(template),
            text: Some(text),
        }
    }

    /// What is wrong with the arguments, if anything: eyes that are not two
    /// characters, else a tongue that is not two characters, else a width
    /// of 0.
    pub open spec fn validate(self) -> Result<(), ConfigError> {
        if self.eyes().len() != 2 {
            Err(ConfigError::Eyes)
        } else if self.tongue().len() != 2 {
            Err(ConfigError::Tongue)
        } else if self.max_width == 0 {
            Err(ConfigError::ZeroWidth)
        } else {
            Ok(())
        }
    }

    /// Whether the text is to be read from the standard input: no list is
    /// asked for and no word was given.
    pub open spec fn reads_stdin(self) -> bool {
        !self.list && self.text.len() == 0
    }

    /// The options that these arguments ask for, or why they ask for none:
    /// what is wrong with the arguments.
    pub open spec fn options(self, template: Seq<char>, text: Seq<char>) -> Result<
        OptionsView,
        ConfigError,
    > {
        match self.validate() {
            Err(error) => Err(error),
            Ok(_) => self.settings(template, text).build(),
        }
    }
}

impl Args {
    /// The mode asked for, if any. Where several flags are set the first in
    /// the order of the modes counts.
    pub fn mode(&self) -> (mode: Option<Mode>)
        ensures
            mode == self@.mode(),
    {
        if self.mode_borg {
            Some(Mode::Borg)
        } else if self.mode_dead {
            Some(Mode::Dead)
        } else if self.mode_greedy {
            Some(Mode::Greedy)
        } else if self.mode_paranoia {
            Some(Mode::Paranoia)
        } else if self.mode_stoned {
            Some(Mode::Stoned)
        } else if self.mode_tired {
            Some(Mode::Tired)
        } else if self.mode_wired {
            Some(Mode::Wired)
        } else if self.mode_youthful {
            Some(Mode::Youthful)
        } else {
            None
        }
    }

    /// The eyes asked for. A mode comes before the eye string.
    pub fn eyes(&self) -> (eyes: &str)
        ensures
            eyes@ == self@.eyes(),
    {
        match self.mode() {
            Some(mode) => mode.eyes(),
            None => self.eye_string.as_str(),
        }
    }

    /// The tongue asked for. A mode comes before the tongue string.
    pub fn tongue(&self) -> (tongue: &str)
        ensures
            tongue@ == self@.tongue(),
    {
        match self.mode() {
            Some(mode) => mode.tongue(),
            None => self.tongue_string.as_str(),
        }
    }

    /// The text: the words with a space between each two.
    pub fn message(&self) -> (text: String)
        ensures
            text@ == self@.message(),
    {
        join(&self.text, " ")
    }

    /// Checks the arguments: the eyes and the tongue must have exactly two
    /// characters each, and the width must be positive.
    pub fn validate(&self) -> (result: Result<(), ConfigError>)
        ensures
            result == self@.validate(),
    {
        if self.eyes().unicode_len() != 2 {
            Err(ConfigError::Eyes)
        } else if self.tongue().unicode_len() != 2 {
            Err(ConfigError::Tongue)
        } else if self.max_width == 0 {
            Err(ConfigError::ZeroWidth)
        } else {
            Ok(())
        }
    }

    /// Whether the text is to be read from the standard input.
    pub fn reads_stdin(&self) -> (wanted: bool)
        ensures
            wanted == self@.reads_stdin(),
    {
        !self.list && self.text.len() == 0
    }

    /// Takes what was read from the standard input for the text: one word,
    /// the input without the whitespace around it.
    pub fn read_text(&mut self, input: &str)
        ensures
            final(self)@ == (ArgsView { text: seq![trimmed(input@)], ..old(self)@ }),
    {
        let mut text: Vec<String> = Vec::new();
        text.push(trim(input));
        proof {
            assert(line_views(text@) =~= seq![trimmed(input@)]);
        }
        self.text = text;
    }

    /// The options that these arguments ask for, with `template` for the
    /// cowfile and `text` for the text in the bubble.
    pub fn options(&self, template: String, text: String) -> (result: Result<
        Options,
        ConfigError,
    >)
        ensures
            match result {
                Ok(options) => self@.options(template@, text@) == Ok::<OptionsView, ConfigError>(
                    options@,
                ),
                Err(error) => self@.options(template@, text@) == Err::<OptionsView, ConfigError>(
                    error,
                ),
            },
    {
        match self.validate() {
            Err(error) => {
                return Err(error);
            },
            Ok(_) => {},
        }
        let eyes = chars_of(self.eyes());
        OptionsBuilder::default().word_wrap(!self.disable_wrap).print_width(self.max_width).eyes(
            [eyes[0], eyes[1]],
        ).tongue(String::from_str(self.tongue())).thought(self.think).template(template).text(
            text,
        ).build()
    }
}

} // verus!
