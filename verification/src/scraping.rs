//! Reading the weekly Mythic+ affixes out of the subcreation page.
use scraper::{Html, Selector};
use vstd::prelude::*;
use crate::text::{chars_of, push_char};

verus! {

/// For every element of the HTML document `html` that the CSS selector
/// `selector` matches, in document order, the text pieces below it, in
/// order; `None` when the selector does not parse.
pub uninterp spec fn selected_texts(html: Seq<char>, selector: Seq<char>) -> Option<
    Seq<Seq<Seq<char>>>,
>;

/// Trusted: wraps scraper's `Html::parse_document`, `Selector::parse`,
/// `Html::select` and `ElementRef::text`. What the HTML parser makes of a
/// document takes pages to state, so the result is only named
/// (`selected_texts`), as a function of the page and the selector.
#[verifier::external_body]
fn select_texts(html: &str, selector: &str) -> (res: Option<Vec<Vec<String>>>)
    ensures
        res is None <==> selected_texts(html@, selector@) is None,
        res matches Some(v) ==> selected_texts(html@, selector@) == Some(v.deep_view()),
{
    let document = Html::parse_document(html);
    let selector = match Selector::parse(selector) {
        Ok(s) => s,
        Err(_) => return None,
    };
    let mut blocks = Vec::new();
    for element in document.select(&selector) {
        let mut pieces = Vec::new();
        for piece in element.text() {
            pieces.push(piece.to_string());
        }
        blocks.push(pieces);
    }
    Some(blocks)
}

/// `t` without its double quotes.
pub open spec fn unquoted(t: Seq<char>) -> Seq<char>
    decreases t.len(),
{
    if t.len() == 0 {
        Seq::empty()
    } else {
        unquoted(t.drop_last()) + if t.last() == '"' {
            Seq::<char>::empty()
        } else {
            seq![t.last()]
        }
    }
}

/// A matched element can be read: it has a second text piece, and that
/// piece, without quotes, starts with a one-byte character that can be
/// cut off.
pub open spec fn readable(block: Seq<Seq<char>>) -> bool {
    &&& block.len() >= 2
    &&& unquoted(block[1]).len() >= 1
    &&& (unquoted(block[1])[0] as u32) < 0x80
}

/// What an element says: its second text piece without quotes and
/// without its first character.
pub open spec fn affix_text(block: Seq<Seq<char>>) -> Seq<char> {
    unquoted(block[1]).drop_first()
}

/// The affixes the page shows: what its last matched element says, or
/// nothing when none matched.
pub open spec fn affixes_of(blocks: Seq<Seq<Seq<char>>>) -> Seq<char> {
    if blocks.len() == 0 {
        Seq::empty()
    } else {
        affix_text(blocks.last())
    }
}

/// Every matched element can be read.
pub open spec fn all_readable(blocks: Seq<Seq<Seq<char>>>) -> bool {
    forall|i: int| 0 <= i < blocks.len() ==> #[trigger] readable(blocks[i])
}

/// The class selector of the element that holds the affixes.
pub open spec fn affix_selector() -> Seq<char> {
    ".col-12.py-3"@
}

fn unquote(t: &String) -> (u: Vec<char>)
    ensures
        u@ == unquoted(t@),
{
    let cs = chars_of(t.as_str());
    let mut u: Vec<char> = Vec::new();
    let mut i: usize = 0;
    while i < cs.len()
        invariant
            cs@ == t@,
            i <= cs@.len(),
            u@ == unquoted(cs@.take(i as int)),
        decreases cs@.len() - i,
    {
        assert(cs@.take(i + 1).drop_last() =~= cs@.take(i as int));
        if cs[i] != '"' {
            u.push(cs[i]);
        }
        assert(u@ =~= unquoted(cs@.take(i + 1)));
        i = i + 1;
    }
    assert(cs@.take(i as int) =~= cs@);
    u
}

fn is_readable(block: &Vec<String>) -> (ok: bool)
    ensures
        ok == readable(block.deep_view()),
{
    if block.len() < 2 {
        return false;
    }
    let u = unquote(&block[1]);
    u.len() >= 1 && (u[0] as u32) < 0x80
}

fn crop(block: &Vec<String>) -> (text: String)
    requires
        readable(block.deep_view()),
    ensures
        text@ == affix_text(block.deep_view()),
{
    let u = unquote(&block[1]);
    let mut text = String::new();
    let mut i: usize = 1;
    while i < u.len()
        invariant
            1 <= i <= u@.len(),
            text@ == u@.subrange(1, i as int),
        decreases u@.len() - i,
    {
        push_char(&mut text, u[i]);
        assert(text@ =~= u@.subrange(1, i + 1));
        i = i + 1;
    }
    assert(u@.subrange(1, u@.len() as int) =~= u@.drop_first());
    text
}

/// The scraping of the affix page.
pub struct ScraperBuiler {}

impl ScraperBuiler {
    /// The affixes, from the matched elements of the page; every element
    /// must be readable (the original stops otherwise).
    pub fn affix_from_blocks(blocks: &Vec<Vec<String>>) -> (affix: String)
        requires
            all_readable(blocks.deep_view()),
        ensures
            affix@ == affixes_of(blocks.deep_view()),
    {
        let mut cropped = String::new();
        let mut i: usize = 0;
        while i < blocks.len()
            invariant
                all_readable(blocks.deep_view()),
                i <= blocks@.len(),
                i == 0 ==> cropped@ == Seq::<char>::empty(),
                i > 0 ==> cropped@ == affix_text(blocks.deep_view()[i - 1]),
            decreases blocks@.len() - i,
        {
            assert(readable(blocks.deep_view()[i as int]));
            cropped = crop(&blocks[i]);
            i = i + 1;
        }
        cropped
    }

    /// The affixes shown by the subcreation page `html`: `None` when the
    /// selector cannot be used or an element cannot be read, where the
    /// original stops.
    pub fn weekly_affix_from_html(html: &str) -> (affix: Option<String>)
        ensures
            match selected_texts(html@, affix_selector()) {
                None => affix is None,
                Some(blocks) => if all_readable(blocks) {
                    affix matches Some(a) && a@ == affixes_of(blocks)
                } else {
                    affix is None
                },
            },
    {
        let selector = ".col-12.py-3";
        let blocks = match select_texts(html, selector) {
            Some(b) => b,
            None => return None,
        };
        let mut i: usize = 0;
        while i < blocks.len()
            invariant
                selected_texts(html@, affix_selector()) == Some(blocks.deep_view()),
                i <= blocks@.len(),
                forall|j: int| 0 <= j < i ==> #[trigger] readable(blocks.deep_view()[j]),
            decreases blocks@.len() - i,
        {
            if !is_readable(&blocks[i]) {
                assert(!readable(blocks.deep_view()[i as int]));
                return None;
            }
            i = i + 1;
        }
        Some(Self::affix_from_blocks(&blocks))
    }
}


proof fn lemma_unquoted_has_no_quote(t: Seq<char>)
    ensures
        forall|i: int| 0 <= i < unquoted(t).len() ==> #[trigger] unquoted(t)[i] != '"',
    decreases t.len(),
{
    if t.len() > 0 {
        lemma_unquoted_has_no_quote(t.drop_last());
        let u = unquoted(t.drop_last());
        assert forall|i: int| 0 <= i < unquoted(t).len() implies #[trigger] unquoted(t)[i] != '"' by {
            if i < u.len() {
                assert(unquoted(t)[i] == u[i]);
            }
        }
    }
}

/// The affix text never holds a double quote: they are all removed.
pub proof fn law_affix_has_no_quote(blocks: Seq<Seq<Seq<char>>>)
    requires
        all_readable(blocks),
    ensures
        forall|i: int| 0 <= i < affixes_of(blocks).len() ==> #[trigger] affixes_of(blocks)[i] != '"',
{
    if blocks.len() > 0 {
        let b = blocks.last();
        assert(readable(blocks[blocks.len() - 1]));
        lemma_unquoted_has_no_quote(b[1]);
        assert forall|i: int| 0 <= i < affixes_of(blocks).len() implies #[trigger] affixes_of(blocks)[i] != '"' by {
            assert(affixes_of(blocks)[i] == unquoted(b[1])[i + 1]);
        }
    }
}


/// With several matched elements the affixes come from the last one: the
/// elements before it make no difference.
pub proof fn law_last_element_wins(earlier: Seq<Seq<Seq<char>>>, last: Seq<Seq<char>>)
    ensures
        affixes_of(earlier.push(last)) == affixes_of(seq![last]),
{
    assert(earlier.push(last).last() == last);
    assert(seq![last].last() == last);
}

/// What one element says: its second text piece with every double quote
/// removed, without the first remaining character.
pub proof fn law_affix_of_one_element(block: Seq<Seq<char>>)
    requires
        readable(block),
    ensures
        seq![unquoted(block[1])[0]] + affixes_of(seq![block]) == block[1].filter(|c: char| c != '"'),
{
    lemma_unquoted_is_filter(block[1]);
    assert(seq![block].last() == block);
    assert(seq![unquoted(block[1])[0]] + unquoted(block[1]).drop_first() =~= unquoted(block[1]));
}

proof fn lemma_unquoted_is_filter(t: Seq<char>)
    ensures
        unquoted(t) == t.filter(|c: char| c != '"'),
    decreases t.len(),
{
    reveal_with_fuel(Seq::<char>::filter, 1);
    if t.len() > 0 {
        lemma_unquoted_is_filter(t.drop_last());
        let u = unquoted(t.drop_last());
        if t.last() == '"' {
            assert(u + Seq::<char>::empty() =~= u);
        } else {
            assert(u + seq![t.last()] =~= u.push(t.last()));
        }
    } else {
        assert(unquoted(t) =~= t);
    }
}

} // verus!
