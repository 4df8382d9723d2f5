//! The reStructuredText document rendered from a catalog, in catalog order.
use vstd::prelude::*;
use crate::catalog::{links_view, CategoryView, Link, RstDoc};

verus! {

/// `piece` written `n` times.
pub open spec fn repeated(piece: Seq<char>, n: nat) -> Seq<char>
    decreases n,
{
    if n == 0 {
        Seq::empty()
    } else {
        repeated(piece, (n - 1) as nat) + piece
    }
}

pub open spec fn preamble() -> Seq<char> {
    "---\n"@ + "write: rst+lhs\n"@ + "...\n"@
}

/// The category of the entry before `i`; empty before the first one.
pub open spec fn previous_category(list: Seq<CategoryView>, i: int) -> Seq<char> {
    if i == 0 {
        Seq::empty()
    } else {
        list[i - 1].category
    }
}

/// Entry `i` opens a category section.
pub open spec fn opens_category(list: Seq<CategoryView>, i: int) -> bool {
    list[i].category != previous_category(list, i)
}

/// The subcategory that entry `i` is compared with: the one before it within
/// the same category, empty at the start of a category section.
pub open spec fn previous_subcategory(list: Seq<CategoryView>, i: int) -> Seq<char> {
    if i == 0 || opens_category(list, i) {
        Seq::empty()
    } else {
        list[i - 1].subcategory
    }
}

/// Entry `i` opens a subcategory section.
pub open spec fn opens_subcategory(list: Seq<CategoryView>, i: int) -> bool {
    list[i].subcategory != previous_subcategory(list, i)
}

pub open spec fn category_heading(name: Seq<char>) -> Seq<char> {
    "\n"@ + name + "\n"@ + repeated("="@, name.len()) + "\n\n"@
}

pub open spec fn subcategory_heading(name: Seq<char>) -> Seq<char> {
    name + "\n"@ + repeated("-"@, name.len()) + "\n\n"@
}

/// One line per link, in order, each as a reference-style hyperlink.
pub open spec fn link_lines(links: Seq<(u16, Seq<char>)>) -> Seq<char>
    decreases links.len(),
{
    if links.len() == 0 {
        Seq::empty()
    } else {
        link_lines(links.drop_last()) + "`"@ + links.last().1 + "`_\n"@
    }
}

/// The text of entry `i`: the headings it opens, then its links.
pub open spec fn entry_text(list: Seq<CategoryView>, i: int) -> Seq<char> {
    (if opens_category(list, i) {
        category_heading(list[i].category)
    } else {
        Seq::empty()
    }) + (if opens_subcategory(list, i) {
        subcategory_heading(list[i].subcategory)
    } else {
        Seq::empty()
    }) + link_lines(list[i].links)
}

/// The text of the first `n` entries.
pub open spec fn entries_text(list: Seq<CategoryView>, n: nat) -> Seq<char>
    decreases n,
{
    if n == 0 {
        Seq::empty()
    } else {
        entries_text(list, (n - 1) as nat) + entry_text(list, n - 1)
    }
}

/// The whole document: preamble, every entry, and a closing blank section.
pub open spec fn rendered(list: Seq<CategoryView>) -> Seq<char> {
    preamble() + entries_text(list, list.len()) + "\n\n"@
}

/// Appends `piece` to `out` `n` times.
fn push_repeated(out: &mut String, piece: &str, n: usize)
    ensures
        final(out)@ == old(out)@ + repeated(piece@, n as nat),
{
    let ghost start = out@;
    let mut k: usize = 0;
    while k < n
        invariant
            0 <= k <= n,
            out@ == start + repeated(piece@, k as nat),
        decreases n - k,
    {
        out.append(piece);
        assert(start + repeated(piece@, k as nat) + piece@ =~= start + repeated(piece@, (k + 1) as nat));
        k += 1;
    }
}

/// Appends one line per link of `links`.
fn push_link_lines(out: &mut String, links: &Vec<Link>)
    ensures
        final(out)@ == old(out)@ + link_lines(links_view(links@)),
{
    let ghost start = out@;
    let ghost all = links_view(links@);
    let mut k: usize = 0;
    while k < links.len()
        invariant
            0 <= k <= links.len(),
            all == links_view(links@),
            out@ == start + link_lines(all.take(k as int)),
        decreases links.len() - k,
    {
        assert(all[k as int] == links@[k as int]@);
        out.append("`");
        out.append(links[k].link.as_str());
        out.append("`_\n");
        assert(all.take(k + 1).drop_last() =~= all.take(k as int));
        assert(out@ =~= start + link_lines(all.take(k + 1)));
        k += 1;
    }
    assert(all.take(k as int) =~= all);
}

/// Appends a category heading for `name`.
fn push_category_heading(out: &mut String, name: &String)
    ensures
        final(out)@ == old(out)@ + category_heading(name@),
{
    let ghost start = out@;
    out.append("\n");
    out.append(name.as_str());
    out.append("\n");
    push_repeated(out, "=", name.as_str().unicode_len());
    out.append("\n\n");
    assert(out@ =~= start + category_heading(name@));
}

/// Appends a subcategory heading for `name`.
fn push_subcategory_heading(out: &mut String, name: &String)
    ensures
        final(out)@ == old(out)@ + subcategory_heading(name@),
{
    let ghost start = out@;
    out.append(name.as_str());
    out.append("\n");
    push_repeated(out, "-", name.as_str().unicode_len());
    out.append("\n\n");
    assert(out@ =~= start + subcategory_heading(name@));
}

impl RstDoc {
    /// The document for the catalog, in catalog order.
    pub fn render(&self) -> (r: String)
        ensures
            r@ == rendered(self@),
    {
        let ghost list = self@;
        let mut out = String::new();
        out.append("---\n");
        out.append("write: rst+lhs\n");
        out.append("...\n");
        let mut old_category = String::new();
        let mut old_subcategory = String::new();
        let mut i: usize = 0;
        while i < self.list.len()
            invariant
                0 <= i <= self.list.len(),
                list == self@,
                out@ == preamble() + entries_text(list, i as nat),
                old_category@ == previous_category(list, i as int),
                old_subcategory@ == (if i == 0 {
                    Seq::<char>::empty()
                } else {
                    list[i - 1].subcategory
                }),
            decreases self.list.len() - i,
        {
            let x = &self.list[i];
            assert(list[i as int] == x@);
            let ghost start = out@;
            let opens = x.category != old_category;
            if opens {
                push_category_heading(&mut out, &x.category);
                old_category = x.category.clone();
                old_subcategory = String::new();
            }
            let ghost after_category = out@;
            assert(old_subcategory@ == previous_subcategory(list, i as int));
            let sub_opens = x.subcategory != old_subcategory;
            if sub_opens {
                push_subcategory_heading(&mut out, &x.subcategory);
                old_subcategory = x.subcategory.clone();
            }
            let ghost after_headings = out@;
            push_link_lines(&mut out, &x.links);
            proof {
                let c = if opens {
                    category_heading(list[i as int].category)
                } else {
                    Seq::empty()
                };
                let h = if sub_opens {
                    subcategory_heading(list[i as int].subcategory)
                } else {
                    Seq::empty()
                };
                assert(after_category =~= start + c);
                assert(after_headings =~= start + c + h);
                assert(out@ =~= start + entry_text(list, i as int));
            }
            i += 1;
        }
        out.append("\n\n");
        out
    }
}

/// Rendering the same catalog twice gives the same text.
pub proof fn lemma_render_deterministic(doc: &RstDoc, first: Seq<char>, second: Seq<char>)
    requires
        first == rendered(doc@),
        second == rendered(doc@),
    ensures
        first == second,
{
}

} // verus!
