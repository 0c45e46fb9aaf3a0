//! The settings of one rendering, and the builder that checks them.

use vstd::prelude::*;
use vstd::string::StrSliceExecFns;

verus! {

/// One of the settings that make up the options.
#[derive(Debug, Clone, Copy, PartialEq, Eq, Structural)]
pub enum Setting {
    WordWrap,
    PrintWidth,
    Eyes,
    Tongue,
    Thought,
    Template,
    Text,
}

/// Why a set of values makes no options.
#[derive(Debug, Clone, Copy, PartialEq, Eq, Structural)]
pub enum ConfigError {
    /// A setting was never given.
    Missing(Setting),
    /// The width is 0.
    ZeroWidth,
    /// The eyes are not exactly two characters.
    Eyes,
    /// The tongue is not exactly two characters.
    Tongue,
}

/// The settings of one rendering. They are fixed once built: the width is
/// positive and the tongue has exactly two characters.
#[derive(Debug)]
pub struct Options {
    word_wrap: bool,
    print_width: usize,
    eyes: [char; 2],
    tongue: String,
    thought: bool,
    template: String,
    text: String,
}

/// The options as contracts see them.
pub struct OptionsView {
    /// Whether the text is wrapped.
    pub word_wrap: bool,
    /// The number of columns after which the text is wrapped.
    pub print_width: nat,
    /// The glyph of the left eye.
    pub left_eye: char,
    /// The glyph of the right eye.
    pub right_eye: char,
    /// The tongue.
    pub tongue: Seq<char>,
    /// Whether the figure thinks instead of speaking.
    pub thought: bool,
    /// The cowfile.
    pub template: Seq<char>,
    /// The text in the bubble.
    pub text: Seq<char>,
}

impl OptionsView {
    /// What holds of all options: a positive width and a tongue of two
    /// characters.
    pub open spec fn well_formed(self) -> bool {
        self.print_width > 0 && self.tongue.len() == 2
    }
}

impl View for Options {
    type V = OptionsView;

    closed spec fn view(&self) -> OptionsView {
        OptionsView {
            word_wrap: self.word_wrap,
            print_width: self.print_width as nat,
            left_eye: self.eyes@[0],
            right_eye: self.eyes@[1],
            tongue: self.tongue@,
            thought: self.thought,
            template: self.template@,
            text: self.text@,
        }
    }
}

impl Options {
    #[verifier::type_invariant]
    spec fn checked(&self) -> bool {
        self@.well_formed()
    }

    /// Whether the text is wrapped.
    pub fn word_wrap(&self) -> (value: bool)
        ensures
            value == self@.word_wrap,
    {
        self.word_wrap
    }

    /// The number of columns after which the text is wrapped.
    pub fn print_width(&self) -> (value: usize)
        ensures
            value == self@.print_width,
            value > 0,
    {
        proof {
            use_type_invariant(self);
        }
        self.print_width
    }

    /// The glyph of the left eye.
    pub fn left_eye(&self) -> (value: char)
        ensures
            value == self@.left_eye,
    {
        self.eyes[0]
    }

    /// The glyph of the right eye.
    pub fn right_eye(&self) -> (value: char)
        ensures
            value == self@.right_eye,
    {
        self.eyes[1]
    }

    /// The tongue: two characters.
    pub fn tongue(&self) -> (value: &str)
        ensures
            value@ == self@.tongue,
            value@.len() == 2,
    {
        proof {
            use_type_invariant(self);
        }
        self.tongue.as_str()
    }

    /// Whether the figure thinks instead of speaking.
    pub fn thought(&self) -> (value: bool)
        ensures
            value == self@.thought,
    {
        self.thought
    }

    /// The cowfile.
    pub fn template(&self) -> (value: &str)
        ensures
            value@ == self@.template,
    {
        self.template.as_str()
    }

    /// The text in the bubble.
    pub fn text(&self) -> (value: &str)
        ensures
            value@ == self@.text,
    {
        self.text.as_str()
    }
}

/// Collects the settings one by one; `build` checks them.
#[derive(Debug)]
pub struct OptionsBuilder {
    word_wrap: Option<bool>,
    print_width: Option<usize>,
    eyes: Option<[char; 2]>,
    tongue: Option<String>,
    thought: Option<bool>,
    template: Option<String>,
    text: Option<String>,
}

/// The settings given so far.
pub struct OptionsBuilderView {
    pub word_wrap: Option<bool>,
    pub print_width: Option<nat>,
    pub eyes: Option<(char, char)>,
    pub tongue: Option<Seq<char>>,
    pub thought: Option<bool>,
    pub template: Option<Seq<char>>,
    pub text: Option<Seq<char>>,
}

impl OptionsBuilderView {
    /// No setting given.
    pub open spec fn empty() -> OptionsBuilderView {
        OptionsBuilderView {
            word_wrap: None,
            print_width: None,
            eyes: None,
            tongue: None,
            thought: None,
            template: None,
            text: None,
        }
    }

    /// The first setting that was not given, in the order of the fields.
    pub open spec fn first_missing(self) -> Option<Setting> {
        if self.word_wrap is None {
            Some(Setting::WordWrap)
        } else if self.print_width is None {
            Some(Setting::PrintWidth)
        } else if self.eyes is None {
            Some(Setting::Eyes)
        } else if self.tongue is None {
            Some(Setting::Tongue)
        } else if self.thought is None {
            Some(Setting::Thought)
        } else if self.template is None {
            Some(Setting::Template)
        } else if self.text is None {
            Some(Setting::Text)
        } else {
            None
        }
    }

    /// The options that these settings make, or why they make none: the first
    /// missing setting, else a width of 0, else a tongue that is not two
    /// characters long. Options that are made are well formed.
    pub open spec fn build(self) -> Result<OptionsView, ConfigError> {
        if let Some(setting) = self.first_missing() {
            Err(ConfigError::Missing(setting))
        } else if self.print_width->0 == 0 {
            Err(ConfigError::ZeroWidth)
        } else if self.tongue->0.len() != 2 {
            Err(ConfigError::Tongue)
        } else {
            Ok(
                OptionsView {
                    word_wrap: self.word_wrap->0,
                    print_width: self.print_width->0,
                    left_eye: self.eyes.unwrap().0,
                    right_eye: self.eyes.unwrap().1,
                    tongue: self.tongue->0,
                    thought: self.thought->0,
                    template: self.template->0,
                    text: self.text->0,
                },
            )
        }
    }
}

/// Whatever the settings, the options that are built of them are well formed.
pub proof fn lemma_built_options_are_well_formed(settings: OptionsBuilderView)
    ensures
        settings.build() matches Ok(options) ==> options.well_formed(),
{
}

impl View for OptionsBuilder {
    type V = OptionsBuilderView;

    closed spec fn view(&self) -> OptionsBuilderView {
        OptionsBuilderView {
            word_wrap: self.word_wrap,
            print_width: match self.print_width {
                Some(width) => Some(width as nat),
                None => None,
            },
            eyes: match self.eyes {
                Some(eyes) => Some((eyes@[0], eyes@[1])),
                None => None,
            },
            tongue: match self.tongue {
                Some(tongue) => Some(tongue@),
                None => None,
            },
            thought: self.thought,
            template: match self.template {
                Some(template) => Some(template@),
                None => None,
            },
            text: match self.text {
                Some(text) => Some(text@),
                None => None,
            },
        }
    }
}

impl Default for OptionsBuilder {
    /// A builder with no setting given.
    fn default() -> (builder: OptionsBuilder)
        ensures
            builder@ == OptionsBuilderView::empty(),
    {
        OptionsBuilder {
            word_wrap: None,
            print_width: None,
            eyes: None,
            tongue: None,
            thought: None,
            template: None,
            text: None,
        }
    }
}

impl OptionsBuilder {
    /// Whether the text is wrapped.
    pub fn word_wrap(self, value: bool) -> (builder: OptionsBuilder)
        ensures
            builder@ == (OptionsBuilderView { word_wrap: Some(value), ..self@ }),
    {
        OptionsBuilder { word_wrap: Some(value), ..self }
    }

    /// The number of columns after which the text is wrapped.
    pub fn print_width(self, value: usize) -> (builder: OptionsBuilder)
        ensures
            builder@ == (OptionsBuilderView { print_width: Some(value as nat), ..self@ }),
    {
        OptionsBuilder { print_width: Some(value), ..self }
    }

    /// The glyphs of the left and the right eye.
    pub fn eyes(self, value: [char; 2]) -> (builder: OptionsBuilder)
        ensures
            builder@ == (OptionsBuilderView { eyes: Some((value@[0], value@[1])), ..self@ }),
    {
        OptionsBuilder { eyes: Some(value), ..self }
    }

    /// The tongue.
    pub fn tongue(self, value: String) -> (builder: OptionsBuilder)
        ensures
            builder@ == (OptionsBuilderView { tongue: Some(value@), ..self@ }),
    {
        OptionsBuilder { tongue: Some(value), ..self }
    }

    /// Whether the figure thinks instead of speaking.
    pub fn thought(self, value: bool) -> (builder: OptionsBuilder)
        ensures
            builder@ == (OptionsBuilderView { thought: Some(value), ..self@ }),
    {
        OptionsBuilder { thought: Some(value), ..self }
    }

    /// The cowfile.
    pub fn template(self, value: String) -> (builder: OptionsBuilder)
        ensures
            builder@ == (OptionsBuilderView { template: Some(value@), ..self@ }),
    {
        OptionsBuilder { template: Some(value), ..self }
    }

    /// The text in the bubble.
    pub fn text(self, value: String) -> (builder: OptionsBuilder)
        ensures
            builder@ == (OptionsBuilderView { text: Some(value@), ..self@ }),
    {
        OptionsBuilder { text: Some(value), ..self }
    }

    /// Checks the settings and makes the options of them.
    pub fn build(self) -> (result: Result<Options, ConfigError>)
        ensures
            match result {
                Ok(options) => self@.build() == Ok::<OptionsView, ConfigError>(options@),
                Err(error) => self@.build() == Err::<OptionsView, ConfigError>(error),
            },
    {
        let word_wrap = match self.word_wrap {
            Some(value) => value,
            None => {
                return Err(ConfigError::Missing(Setting::WordWrap));
            },
        };
        let print_width = match self.print_width {
            Some(value) => value,
            None => {
                return Err(ConfigError::Missing(Setting::PrintWidth));
            },
        };
        let eyes = match self.eyes {
            Some(value) => value,
            None => {
                return Err(ConfigError::Missing(Setting::Eyes));
            },
        };
        let tongue = match self.tongue {
            Some(value) => value,
            None => {
                return Err(ConfigError::Missing(Setting::Tongue));
            },
        };
        let thought = match self.thought {
            Some(value) => value,
            None => {
                return Err(ConfigError::Missing(Setting::Thought));
            },
        };
        let template = match self.template {
            Some(value) => value,
            None => {
                return Err(ConfigError::Missing(Setting::Template));
            },
        };
        let text = match self.text {
            Some(value) => value,
            None => {
                return Err(ConfigError::Missing(Setting::Text));
            },
        };
        if print_width == 0 {
            return Err(ConfigError::ZeroWidth);
        }
        if tongue.as_str().unicode_len() != 2 {
            return Err(ConfigError::Tongue);
        }
        Ok(Options { word_wrap, print_width, eyes, tongue, thought, template, text })
    }
}

} // verus!
