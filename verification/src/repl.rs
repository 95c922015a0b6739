//! The commands of the interactive prompt.
//!
//! A line is cut into words at every whitespace character. The first word is
//! the command: `plot` takes one source, `load` any number of them. What the
//! prompt is to answer is computed here; saying it is left to the caller.

use std::collections::HashMap;
use vstd::prelude::*;

verus! {

/// Whether a character is white space.
pub uninterp spec fn is_whitespace(c: char) -> bool;

/// `char::is_whitespace`: whether the character has the Unicode property
/// `White_Space`. The space and the tabulator have it, letters and digits
/// and punctuation have it not.
#[verifier::external_body]
fn char_is_whitespace(c: char) -> (white: bool)
    ensures
        white == is_whitespace(c),
{
    c.is_whitespace()
}

pub enum NamespaceEntry {
    PointSet,
    PathSet,
    Point,
    Path,
}

pub struct ReplState {
    pub namespace: HashMap<String, NamespaceEntry>,
    pub cancelled: bool,
}

/// What can be loaded, by name.
pub enum LoadSource {
    PointSet(String),
    PathSet(String),
}

/// What the prompt answers to a line.
pub enum Reply {
    /// A plot of this source was asked for.
    Plot(String),
    /// A plot was asked for, of nothing.
    PlotUsage,
    /// This source is being loaded.
    Loading(LoadSource),
    /// This source cannot be loaded, for this reason.
    LoadError(String, String),
}

/// A [`LoadSource`] with its name as a sequence of characters.
pub enum LoadSourceView {
    PointSet(Seq<char>),
    PathSet(Seq<char>),
}

/// A [`Reply`] with its texts as sequences of characters.
pub enum ReplyView {
    Plot(Seq<char>),
    PlotUsage,
    Loading(LoadSourceView),
    LoadError(Seq<char>, Seq<char>),
}

impl View for LoadSource {
    type V = LoadSourceView;

    open spec fn view(&self) -> LoadSourceView {
        match self {
            LoadSource::PointSet(name) => LoadSourceView::PointSet(name@),
            LoadSource::PathSet(name) => LoadSourceView::PathSet(name@),
        }
    }
}

impl View for Reply {
    type V = ReplyView;

    open spec fn view(&self) -> ReplyView {
        match self {
            Reply::Plot(source) => ReplyView::Plot(source@),
            Reply::PlotUsage => ReplyView::PlotUsage,
            Reply::Loading(source) => ReplyView::Loading(source@),
            Reply::LoadError(source, reason) => ReplyView::LoadError(source@, reason@),
        }
    }
}

/// The words of a line: the pieces between its whitespace characters, empty
/// pieces included. A line with no whitespace in it is one word, and so is
/// the empty line.
pub open spec fn split(line: Seq<char>) -> Seq<Seq<char>>
    decreases line.len(),
{
    if line.len() == 0 {
        seq![Seq::<char>::empty()]
    } else {
        let before = split(line.drop_last());
        if is_whitespace(line.last()) {
            before.push(Seq::<char>::empty())
        } else {
            before.drop_last().push(before.last().push(line.last()))
        }
    }
}

/// Every line has a first word.
pub proof fn lemma_split_has_a_word(line: Seq<char>)
    ensures
        split(line).len() >= 1,
    decreases line.len(),
{
    if line.len() > 0 {
        lemma_split_has_a_word(line.drop_last());
    }
}

/// A line has one word more than it has whitespace characters.
pub proof fn lemma_split_counts_whitespace(line: Seq<char>)
    ensures
        split(line).len() == 1 + line.filter(|c: char| is_whitespace(c)).len(),
    decreases line.len(),
{
    let white = |c: char| is_whitespace(c);
    if line.len() == 0 {
        assert(line.filter(white) =~= Seq::<char>::empty()) by {
            reveal(Seq::filter);
        }
    } else {
        lemma_split_counts_whitespace(line.drop_last());
        lemma_split_has_a_word(line.drop_last());
        reveal(Seq::filter);
    }
}

/// The answers to the words of a line.
pub open spec fn replies_to(words: Seq<Seq<char>>) -> Seq<ReplyView> {
    if words.len() == 0 {
        Seq::empty()
    } else if words[0] == "plot"@ {
        if words.len() > 1 {
            seq![ReplyView::Plot(words[1])]
        } else {
            seq![ReplyView::PlotUsage]
        }
    } else if words[0] == "load"@ {
        Seq::new(
            (words.len() - 1) as nat,
            |i: int| ReplyView::Loading(LoadSourceView::PointSet(words[i + 1])),
        )
    } else {
        Seq::empty()
    }
}

/// The texts of the words.
pub open spec fn texts(words: Seq<String>) -> Seq<Seq<char>> {
    Seq::new(words.len(), |i: int| words[i]@)
}

/// The views of the replies.
pub open spec fn reply_views(replies: Seq<Reply>) -> Seq<ReplyView> {
    Seq::new(replies.len(), |i: int| replies[i]@)
}

/// The words of the line, each as a string of its own.
pub fn split_words(line: &str) -> (words: Vec<String>)
    ensures
        texts(words@) == split(line@),
{
    let n = line.unicode_len();
    let mut words: Vec<String> = Vec::new();
    let mut start: usize = 0;
    let mut i: usize = 0;
    assert(line@.take(0) =~= Seq::<char>::empty());
    assert(texts(words@).push(line@.subrange(0, 0)) =~= seq![Seq::<char>::empty()]);
    while i < n
        invariant
            n == line@.len(),
            start <= i <= n,
            split(line@.take(i as int)) == texts(words@).push(
                line@.subrange(start as int, i as int),
            ),
        decreases n - i,
    {
        let c = line.get_char(i);
        let ghost done = texts(words@);
        let ghost word = line@.subrange(start as int, i as int);
        proof {
            assert(line@.take(i + 1).drop_last() =~= line@.take(i as int));
            assert(line@.take(i + 1).last() == c);
        }
        if char_is_whitespace(c) {
            words.push(String::from_str(line.substring_char(start, i)));
            start = i + 1;
            proof {
                assert(texts(words@) =~= done.push(word));
                assert(line@.subrange(start as int, i + 1) =~= Seq::<char>::empty());
            }
        } else {
            proof {
                assert(done.push(word).drop_last() =~= done);
                assert(line@.subrange(start as int, i + 1) =~= word.push(c));
            }
        }
        i = i + 1;
    }
    proof {
        assert(line@.take(n as int) =~= line@);
    }
    let ghost done = texts(words@);
    words.push(String::from_str(line.substring_char(start, n)));
    proof {
        assert(texts(words@) =~= done.push(line@.subrange(start as int, n as int)));
    }
    words
}

/// What a word names as a source to load: as yet always a point set of that
/// name.
pub fn parse_load_source(source: &str) -> (parsed: Result<LoadSource, String>)
    ensures
        parsed matches Ok(found) && found@ == LoadSourceView::PointSet(source@),
{
    Ok(LoadSource::PointSet(String::from_str(source)))
}

/// The answers to the words of a line, of which the first is the command.
pub fn respond(words: &Vec<String>) -> (replies: Vec<Reply>)
    ensures
        reply_views(replies@) == replies_to(texts(words@)),
{
    let mut replies: Vec<Reply> = Vec::new();
    if words.len() == 0 {
        assert(reply_views(replies@) =~= replies_to(texts(words@)));
        return replies;
    }
    let plot = String::from_str("plot");
    let load = String::from_str("load");
    assert(texts(words@)[0] == words[0]@);
    if words[0] == plot {
        if words.len() > 1 {
            let source = String::from_str(words[1].as_str());
            assert(texts(words@)[1] == words[1]@);
            replies.push(Reply::Plot(source));
        } else {
            replies.push(Reply::PlotUsage);
        }
        assert(reply_views(replies@) =~= replies_to(texts(words@)));
    } else if words[0] == load {
        let mut n: usize = 1;
        while n < words.len()
            invariant
                1 <= n <= words.len(),
                replies.len() == n - 1,
                forall|i: int|
                    0 <= i < replies.len() ==> (#[trigger] replies[i])@ == ReplyView::Loading(
                        LoadSourceView::PointSet(words[i + 1]@),
                    ),
            decreases words.len() - n,
        {
            match parse_load_source(words[n].as_str()) {
                Ok(source) => {
                    replies.push(Reply::Loading(source));
                },
                Err(reason) => {
                    replies.push(Reply::LoadError(String::from_str(words[n].as_str()), reason));
                },
            }
            n = n + 1;
        }
        assert(reply_views(replies@) =~= replies_to(texts(words@)));
    } else {
        assert(reply_views(replies@) =~= replies_to(texts(words@)));
    }
    replies
}

impl LoadSource {
    /// The source as the prompt names it: its kind, and its name in brackets.
    pub fn describe(&self) -> (text: String)
        ensures
            text@ == match self@ {
                LoadSourceView::PointSet(name) => "PointSet("@ + name + ")"@,
                LoadSourceView::PathSet(name) => "PathSet("@ + name + ")"@,
            },
    {
        match self {
            LoadSource::PointSet(name) => String::from_str("PointSet(").concat(
                name.as_str(),
            ).concat(")"),
            LoadSource::PathSet(name) => String::from_str("PathSet(").concat(name.as_str()).concat(
                ")",
            ),
        }
    }
}

impl ReplState {
    /// The answers to a line. The state stays as it is: no command changes it
    /// yet.
    pub fn handle_line(&mut self, line: &str) -> (replies: Vec<Reply>)
        ensures
            reply_views(replies@) == replies_to(split(line@)),
            final(self).cancelled == old(self).cancelled,
            final(self).namespace == old(self).namespace,
    {
        let words = split_words(line);
        respond(&words)
    }

    pub fn cancel(&mut self)
        ensures
            final(self).cancelled,
            final(self).namespace == old(self).namespace,
    {
        self.cancelled = true;
    }
}

/// The state of a prompt that has just been opened: nothing is loaded, and
/// nothing is cancelled.
pub fn make_repl_state() -> (state: ReplState)
    ensures
        !state.cancelled,
        state.namespace@ == Map::<String, NamespaceEntry>::empty(),
{
    ReplState { namespace: HashMap::new(), cancelled: false }
}

} // verus!
