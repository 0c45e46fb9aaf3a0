use std::ops::Range;

use chumsky::prelude::{choice, empty, end, filter, just, take_until, Parser, Simple};
use chumsky::text::{self, TextParser};
use cowsay::{extract_body, parse, tokenize};

/// The layout of a cowfile written with parser combinators: ignored lines, the
/// prelude, the lines of the body up to the terminator line, ignored lines.
/// The result is where the body lies, counted in characters.
fn layout() -> impl Parser<char, Range<usize>, Error = Simple<char>> {
    let space_or_tab = filter(|c: &char| *c == ' ' || *c == '\t');

    let prelude = just("$the_cow")
        .padded()
        .then(just('=').padded().or_not())
        .then(just("<<").padded())
        .then(
            just('"')
                .or_not()
                .then(just("EOC"))
                .then(just('"').or_not())
                .then(space_or_tab.or_not()),
        )
        .then(just(";").or_not())
        .then(text::newline());

    let comment = just('#').then(take_until(text::newline())).ignored();

    let ignored_line = choice((text::newline(), comment));

    let terminator = just("EOC").then(text::newline()).ignored();

    let body_line = terminator
        .not()
        .rewind()
        .ignore_then(take_until(text::newline()))
        .ignored();

    empty()
        .then(ignored_line.repeated())
        .ignore_then(prelude.map_with_span(|_, span: Range<usize>| span.end))
        .then_ignore(body_line.repeated())
        .then(terminator.map_with_span(|_, span: Range<usize>| span.start))
        .then_ignore(ignored_line.repeated())
        .then_ignore(end())
        .map(|(start, end)| start..end)
}

/// A small generator of numbers: the same ones on every run.
struct Numbers(u64);

impl Numbers {
    fn next(&mut self, below: usize) -> usize {
        self.0 ^= self.0 << 13;
        self.0 ^= self.0 >> 7;
        self.0 ^= self.0 << 17;
        (self.0 % below as u64) as usize
    }
}

const FRAGMENTS: [&str; 48] = [
    "$thoughts", "${thoughts}", "$tongue", "${tongue}", "$eye", "$eyes", "${eye}", "${eyes}",
    "${eye", "${", "$", "\\", "\\\\", "\\@", "\\$", "@", "E", "EO", "EOC", "EOC\n", "O", "C",
    "\n", "\r\n", "\r", " ", "\t", "a", "s", "e", "y", "}", "{", "#", "# moo\n", ";", "\"", "=",
    "<<", "$the_cow", "\u{e9}", "\u{2028}", "\u{85}", "\u{b}", "\u{c}", "\u{a0}", "(oo)", "^__^",
];

const PRELUDES: [&str; 8] = [
    "$the_cow = <<\"EOC\";\n",
    "$the_cow = <<EOC;\n",
    "$the_cow=<<EOC\n",
    "# moo\n\n$the_cow = <<EOC;\n",
    "  $the_cow  << \"EOC\" ;\r\n",
    "\n$the_cow <<EOC\t\n",
    "$the_cow = <<EOC;",
    "$the_cow <<\n\"EOC\r",
];

const ENDINGS: [&str; 8] =
    ["EOC\n", "\nEOC\n", "\nEOC\r\n\n# moo\n", "\nEOC\n#", "\nEOC", "\r\nEOC\u{2028}", "", "\nEOC\n "];

fn fragments(numbers: &mut Numbers, most: usize) -> String {
    let mut out = String::new();
    for _ in 0..numbers.next(most + 1) {
        out.push_str(FRAGMENTS[numbers.next(FRAGMENTS.len())]);
    }
    out
}

/// Compares the body that the library takes out of `template` with the one
/// that the combinators find, and the tokens of the body by itself with those
/// of the whole template.
fn agree(template: &str) -> bool {
    let reference = layout().parse(template).ok().map(|span| {
        template
            .chars()
            .skip(span.start)
            .take(span.end - span.start)
            .collect::<String>()
    });
    let found = extract_body(template).ok();
    assert_eq!(found, reference, "on {:?}", template);
    assert_eq!(parse(template).is_ok(), found.is_some(), "on {:?}", template);
    if let Some(body) = &found {
        assert_eq!(tokenize(body), parse(template), "on {:?}", template);
    }
    found.is_some()
}

#[test]
fn agrees_with_combinators_on_bodies() {
    let mut numbers = Numbers(0x2545_F491_4F6C_DD1D);
    let mut parsed = 0;
    for _ in 0..20000 {
        let mut template = String::from(PRELUDES[numbers.next(2)]);
        template.push_str(&fragments(&mut numbers, 10));
        template.push_str(ENDINGS[numbers.next(3)]);
        if agree(&template) {
            parsed += 1;
        }
    }
    assert!(parsed > 5000);
}

#[test]
fn agrees_with_combinators_on_whole_templates() {
    let mut numbers = Numbers(0x9E37_79B9_7F4A_7C15);
    let mut parsed = 0;
    for _ in 0..20000 {
        let mut template = fragments(&mut numbers, 2);
        template.push_str(PRELUDES[numbers.next(PRELUDES.len())]);
        template.push_str(&fragments(&mut numbers, 6));
        template.push_str(ENDINGS[numbers.next(ENDINGS.len())]);
        template.push_str(&fragments(&mut numbers, 1));
        if agree(&template) {
            parsed += 1;
        }
    }
    assert!(parsed > 1000);
}

#[test]
fn agrees_with_combinators_on_noise() {
    let mut numbers = Numbers(0xD1B5_4A32_D192_ED03);
    for _ in 0..20000 {
        agree(&fragments(&mut numbers, 12));
    }
}

#[test]
fn agrees_with_combinators_on_preludes() {
    let pieces = ["", " ", "\n", "\t", "=", "<<", "\"", "EOC", ";", "$the_cow", "#", "\r"];
    let mut numbers = Numbers(0x1234_5678_9ABC_DEF1);
    let mut parsed = 0;
    for _ in 0..20000 {
        let mut template = String::new();
        for part in ["$the_cow", "=", "<<", "\"", "EOC", "\"", ";", "\n"] {
            if numbers.next(4) == 0 {
                template.push_str(pieces[numbers.next(pieces.len())]);
            }
            if numbers.next(12) != 0 {
                template.push_str(part);
            }
        }
        template.push_str("moo\nEOC\n");
        if agree(&template) {
            parsed += 1;
        }
    }
    assert!(parsed > 1000);
}

#[test]
fn whitespace_is_that_of_unicode() {
    for code in 0..=0x10FFFFu32 {
        if let Some(c) = char::from_u32(code) {
            let mut template = String::new();
            template.push(c);
            template.push_str("$the_cow = <<EOC;\nEOC\n");
            assert_eq!(parse(&template).is_ok(), c.is_whitespace(), "{:?}", c);
        }
    }
}

#[test]
fn line_breaks_are_those_of_the_combinators() {
    let newline = text::newline::<char, Simple<char>>().then_ignore(end());
    for code in 0..=0x10FFFFu32 {
        if let Some(c) = char::from_u32(code) {
            let mut template = String::from("$the_cow = <<EOC;");
            template.push(c);
            template.push_str("EOC\n");
            let expected = if code < 0x3100 {
                newline.parse(c.to_string()).is_ok()
            } else {
                false
            };
            assert_eq!(parse(&template).is_ok(), expected, "{:?}", c);
        }
    }
}
