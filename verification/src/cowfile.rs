//! Which cowfile is meant: one of the built-in ones, by its name, or a file,
//! by its path.

use vstd::prelude::*;
use vstd::string::StringExecFns;
use rand::seq::IteratorRandom;
use crate::text::chars_of;
use crate::wrap::line_views;

verus! {

/// Where a cowfile is to be taken from.
#[derive(Debug, PartialEq, Eq)]
pub enum CowfileSource {
    /// A file, by its path.
    Path(String),
    /// A built-in cowfile, by its file name.
    Builtin(String),
}

/// A source as contracts see it.
pub enum CowfileSourceView {
    Path(Seq<char>),
    Builtin(Seq<char>),
}

impl View for CowfileSource {
    type V = CowfileSourceView;

    open spec fn view(&self) -> CowfileSourceView {
        match self {
            CowfileSource::Path(path) => CowfileSourceView::Path(path@),
            CowfileSource::Builtin(name) => CowfileSourceView::Builtin(name@),
        }
    }
}

/// The source that `name` means: a name that holds the path separator is a
/// path; any other is the name of a built-in cowfile without its `.cow`.
pub open spec fn source_of(name: Seq<char>, separator: char) -> CowfileSourceView {
    if name.contains(separator) {
        CowfileSourceView::Path(name)
    } else {
        CowfileSourceView::Builtin(name + ".cow"@)
    }
}

/// Tells a path from the name of a built-in cowfile. `separator` is the path
/// separator of the platform.
pub fn locate_cowfile(name: &str, separator: char) -> (source: CowfileSource)
    ensures
        source@ == source_of(name@, separator),
{
    let chars = chars_of(name);
    let mut i: usize = 0;
    while i < chars.len()
        invariant
            i <= chars.len(),
            chars@ == name@,
            forall|k: int| 0 <= k < i ==> chars@[k] != separator,
        decreases chars.len() - i,
    {
        if chars[i] == separator {
            assert(name@[i as int] == separator);
            return CowfileSource::Path(String::from_str(name));
        }
        i += 1;
    }
    let mut file = String::from_str(name);
    file.append(".cow");
    CowfileSource::Builtin(file)
}

/// The names one after the other, each with two spaces after it.
pub open spec fn names_in_a_row(names: Seq<Seq<char>>) -> Seq<char>
    decreases names.len(),
{
    if names.len() == 0 {
        Seq::empty()
    } else {
        names_in_a_row(names.drop_last()) + names.last() + "  "@
    }
}

/// The list of the built-in cowfiles: one line that holds each name with two
/// spaces after it, and a line feed.
pub open spec fn listing(names: Seq<Seq<char>>) -> Seq<char> {
    names_in_a_row(names) + seq!['\n']
}

/// Lists the built-in cowfiles on one line.
pub fn list_builtin_cowfiles(names: &Vec<String>) -> (out: String)
    ensures
        out@ == listing(line_views(names@)),
{
    let ghost views = line_views(names@);
    let mut out = String::new();
    let mut i: usize = 0;
    proof {
        assert(views.take(0) =~= Seq::<Seq<char>>::empty());
    }
    while i < names.len()
        invariant
            i <= names.len(),
            views == line_views(names@),
            out@ == names_in_a_row(views.take(i as int)),
        decreases names.len() - i,
    {
        out.append(names[i].as_str());
        out.append("  ");
        i += 1;
        proof {
            assert(views.take(i as int).drop_last() =~= views.take(i - 1));
            assert(views.take(i as int).last() == names@[i - 1]@);
        }
    }
    out.push('\n');
    proof {
        assert(views.take(names.len() as int) =~= views);
    }
    out
}

/// `IteratorRandom::choose` with the generator of the thread, on the indices
/// below `count`: `None` exactly if there is no index, else one of them.
/// Which one is left open.
#[verifier::external_body]
fn choose_index(count: usize) -> (index: Option<usize>)
    ensures
        index is Some <==> count > 0,
        index matches Some(i) ==> i < count,
{
    (0..count).choose(&mut rand::thread_rng())
}

/// The name that a choice of index stands for, where there is one.
pub open spec fn chosen(names: Seq<Seq<char>>, index: Option<usize>) -> Option<Seq<char>> {
    match index {
        Some(i) if i < names.len() => Some(names[i as int]),
        _ => None,
    }
}

/// The name at `index`, where there is one.
pub fn pick_cowfile(names: &Vec<String>, index: Option<usize>) -> (name: Option<String>)
    ensures
        match name {
            Some(name) => chosen(line_views(names@), index) == Some(name@),
            None => chosen(line_views(names@), index) is None,
        },
{
    match index {
        Some(i) if i < names.len() => Some(names[i].clone()),
        _ => None,
    }
}

/// One of `names`, whichever the random generator picks; `None` exactly if
/// there are no names.
pub fn random_cowfile(names: &Vec<String>) -> (name: Option<String>)
    ensures
        name is Some <==> names.len() > 0,
        name matches Some(name) ==> exists|i: int|
            0 <= i < names.len() && (#[trigger] names@[i])@ == name@,
{
    let index = choose_index(names.len());
    let name = pick_cowfile(names, index);
    proof {
        if let Some(i) = index {
            assert(line_views(names@)[i as int] == names@[i as int]@);
        }
    }
    name
}

} // verus!
