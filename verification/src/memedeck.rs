//! The meme deck: its records, its fixed collection, and the search over
//! it.

use vstd::prelude::*;
use vstd::string::*;

verus! {

/// A request to take in a meme from an address.
#[derive(Debug, PartialEq, Eq)]
pub struct UploadData {
    pub url: String,
}

/// A category of memes, with the number of memes in it.
#[derive(Debug, PartialEq, Eq)]
pub struct MemeCategory {
    pub name: String,
    pub count: u32,
}

/// A template for memes, with the number of memes made from it.
#[derive(Debug, PartialEq, Eq)]
pub struct MemeTemplate {
    pub name: String,
    pub count: u32,
}

/// A category, with the number of entries in it.
#[derive(Debug, PartialEq, Eq)]
pub struct Category {
    pub name: String,
    pub count: u32,
}

/// A meme: what it is known by, and where its picture is.
#[derive(Debug, PartialEq, Eq)]
pub struct Meme {
    pub id: String,
    pub url: String,
}

/// The mathematical value of a `Meme`.
pub struct MemeView {
    pub id: Seq<char>,
    pub url: Seq<char>,
}

impl View for Meme {
    type V = MemeView;

    open spec fn view(&self) -> MemeView {
        MemeView { id: self.id@, url: self.url@ }
    }
}

impl DeepView for Meme {
    type V = MemeView;

    open spec fn deep_view(&self) -> MemeView {
        self@
    }
}

impl Clone for Meme {
    fn clone(&self) -> (res: Self)
        ensures
            res@ == self@,
    {
        Meme { id: self.id.clone(), url: self.url.clone() }
    }
}

/// Whether `needle` stands somewhere in `text`, character for character.
pub open spec fn is_substring(needle: Seq<char>, text: Seq<char>) -> bool {
    exists|i: int|
        0 <= i <= text.len() - needle.len() && #[trigger] text.subrange(i, i + needle.len())
            == needle
}

/// Calls `str::contains` of std with a string as the pattern: whether the
/// pattern stands somewhere in the text.
#[verifier::external_body]
fn str_contains(text: &str, needle: &str) -> (res: bool)
    ensures
        res == is_substring(needle@, text@),
{
    text.contains(needle)
}

/// The memes of the deck.
pub open spec fn meme_list() -> Seq<MemeView> {
    seq![
        MemeView { id: "airbnb"@, url: "/airbnb.jpg"@ },
        MemeView { id: "blimps"@, url: "/blimps.jpeg"@ },
        MemeView { id: "cat"@, url: "/cat.png"@ },
        MemeView { id: "wizard"@, url: "/wizard.jpeg"@ },
    ]
}

/// The memes of the deck, in their order.
pub fn memes() -> (res: Vec<Meme>)
    ensures
        res.deep_view() == meme_list(),
{
    let mut out: Vec<Meme> = Vec::new();
    out.push(Meme { id: "airbnb".to_owned(), url: "/airbnb.jpg".to_owned() });
    out.push(Meme { id: "blimps".to_owned(), url: "/blimps.jpeg".to_owned() });
    out.push(Meme { id: "cat".to_owned(), url: "/cat.png".to_owned() });
    out.push(Meme { id: "wizard".to_owned(), url: "/wizard.jpeg".to_owned() });
    assert(out.deep_view() =~= meme_list());
    out
}

impl Meme {
    /// A meme matches a query when the query stands somewhere in its id.
    pub fn matches_query(&self, query: &str) -> (res: bool)
        ensures
            res == is_substring(query@, self@.id),
    {
        str_contains(self.id.as_str(), query)
    }
}

/// The members of `memes` whose id holds `query`, in order.
pub open spec fn matching(memes: Seq<MemeView>, query: Seq<char>) -> Seq<MemeView> {
    memes.filter(|m: MemeView| is_substring(query, m.id))
}

/// The memes that a search shows: with a query, those of the deck that
/// match it; without one, the whole deck.
pub open spec fn memes_for(query: Option<Seq<char>>) -> Seq<MemeView> {
    match query {
        Some(q) => matching(meme_list(), q),
        None => meme_list(),
    }
}

/// See [`memes_for`].
pub fn filter_memes_by_query(query: &Option<String>) -> (res: Vec<Meme>)
    ensures
        res.deep_view() == memes_for(query.deep_view()),
{
    let all = memes();
    match query {
        None => all,
        Some(q) => {
            let ghost list = all.deep_view();
            let ghost pred = |m: MemeView| is_substring(q@, m.id);
            let mut out: Vec<Meme> = Vec::new();
            let mut i: usize = 0;
            proof {
                reveal(Seq::filter);
                assert(list.subrange(0, 0).filter(pred) =~= Seq::<MemeView>::empty());
            }
            assert(out.deep_view() =~= Seq::<MemeView>::empty());
            while i < all.len()
                invariant
                    i <= all.len(),
                    list == all.deep_view(),
                    pred == (|m: MemeView| is_substring(q@, m.id)),
                    out.deep_view() == list.subrange(0, i as int).filter(pred),
                decreases all.len() - i,
            {
                assert(list[i as int] == all@[i as int]@);
                proof {
                    reveal(Seq::filter);
                    assert(list.subrange(0, i + 1).drop_last() =~= list.subrange(0, i as int));
                }
                if all[i].matches_query(q.as_str()) {
                    let ghost before = out.deep_view();
                    let kept = all[i].clone();
                    out.push(kept);
                    assert(out.deep_view() =~= before.push(kept@));
                }
                i += 1;
            }
            assert(list.subrange(0, all.len() as int) =~= list);
            out
        },
    }
}

/// The first position from `from` up to `to` that holds `c`, and `to` if
/// none does.
pub open spec fn first_at(text: Seq<char>, c: char, from: int, to: int) -> int
    decreases to - from,
{
    if from >= to {
        to
    } else if text[from] == c {
        from
    } else {
        first_at(text, c, from + 1, to)
    }
}

/// Where the search for a character ends.
pub proof fn lemma_first_at(text: Seq<char>, c: char, from: int, to: int)
    requires
        0 <= from <= to <= text.len(),
    ensures
        from <= first_at(text, c, from, to) <= to,
        first_at(text, c, from, to) < to ==> text[first_at(text, c, from, to)] == c,
    decreases to - from,
{
    if from < to && text[from] != c {
        lemma_first_at(text, c, from + 1, to);
    }
}

/// Finds the first position from `from` up to `to` that holds `c`.
pub fn find_char(text: &str, c: char, from: usize, to: usize) -> (res: usize)
    requires
        from <= to <= text@.len(),
    ensures
        res as int == first_at(text@, c, from as int, to as int),
        from <= res <= to,
{
    let mut i: usize = from;
    while i < to
        invariant
            from <= i <= to <= text@.len(),
            first_at(text@, c, from as int, to as int) == first_at(text@, c, i as int, to as int),
        decreases to - i,
    {
        if text.get_char(i) == c {
            return i;
        }
        i += 1;
    }
    i
}

/// The value of the part of a query string from `from` up to `to`, if the
/// part gives a value to the parameter `name`: it must hold exactly one
/// `=`, with `name` before it; the value is what follows.
pub open spec fn part_value(text: Seq<char>, name: Seq<char>, from: int, to: int) -> Option<
    Seq<char>,
> {
    let eq = first_at(text, '=', from, to);
    if eq < to && first_at(text, '=', eq + 1, to) == to && text.subrange(from, eq) == name {
        Some(text.subrange(eq + 1, to))
    } else {
        None
    }
}

/// The value of the parameter `name` in a query string, read from position
/// `from`: the parts are divided by `&`, and the first part that gives the
/// parameter a value decides.
pub open spec fn query_param_from(text: Seq<char>, name: Seq<char>, from: int) -> Option<
    Seq<char>,
>
    decreases text.len() - from,
{
    if from > text.len() || from < 0 {
        None
    } else {
        let end = first_at(text, '&', from, text.len() as int);
        match part_value(text, name, from, end) {
            Some(v) => Some(v),
            None => if from <= end < text.len() {
                query_param_from(text, name, end + 1)
            } else {
                None
            },
        }
    }
}

/// The value of the parameter `param_name` in a query string such as
/// `a=1&b=2`, if the string gives it one.
pub fn parse_query_param(query_params: &str, param_name: &str) -> (res: Option<String>)
    ensures
        res.deep_view() == query_param_from(query_params@, param_name@, 0),
{
    let len = query_params.unicode_len();
    let name = param_name.to_owned();
    let mut from: usize = 0;
    loop
        invariant
            from <= len == query_params@.len(),
            name@ == param_name@,
            query_param_from(query_params@, param_name@, 0) == query_param_from(
                query_params@,
                param_name@,
                from as int,
            ),
        decreases len - from,
    {
        let end = find_char(query_params, '&', from, len);
        let eq = find_char(query_params, '=', from, end);
        if eq < end {
            let second = find_char(query_params, '=', eq + 1, end);
            if second == end {
                let key = query_params.substring_char(from, eq).to_owned();
                if key == name {
                    return Some(query_params.substring_char(eq + 1, end).to_owned());
                }
            }
        }
        if end >= len {
            return None;
        }
        from = end + 1;
    }
}

} // verus!
