//! The catalog: categories keyed by `(category, subcategory)`, each holding
//! an ordered list of links without duplicates, and the merge that adds links.
use vstd::prelude::*;

verus! {

/// One reference: a small numeric id and the link text.
pub struct Link {
    pub id: u16,
    pub link: String,
}

impl View for Link {
    type V = (u16, Seq<char>);

    open spec fn view(&self) -> (u16, Seq<char>) {
        (self.id, self.link@)
    }
}

/// The abstract value of a [`Category`].
pub struct CategoryView {
    pub category: Seq<char>,
    pub subcategory: Seq<char>,
    pub links: Seq<(u16, Seq<char>)>,
}

/// A group of links under a `(category, subcategory)` key.
pub struct Category {
    pub category: String,
    pub subcategory: String,
    pub links: Vec<Link>,
}

pub open spec fn links_view(links: Seq<Link>) -> Seq<(u16, Seq<char>)> {
    links.map_values(|l: Link| l@)
}

impl View for Category {
    type V = CategoryView;

    open spec fn view(&self) -> CategoryView {
        CategoryView {
            category: self.category@,
            subcategory: self.subcategory@,
            links: links_view(self.links@),
        }
    }
}

/// The catalog, in the order in which it is persisted and rendered.
pub struct RstDoc {
    pub list: Vec<Category>,
}

pub open spec fn categories_view(list: Seq<Category>) -> Seq<CategoryView> {
    list.map_values(|c: Category| c@)
}

impl View for RstDoc {
    type V = Seq<CategoryView>;

    open spec fn view(&self) -> Seq<CategoryView> {
        categories_view(self.list@)
    }
}

/// `entry` has the key `(category, subcategory)`.
pub open spec fn has_key(entry: CategoryView, category: Seq<char>, subcategory: Seq<char>) -> bool {
    entry.category == category && entry.subcategory == subcategory
}

/// Some entry of `list` has the key `(category, subcategory)`.
pub open spec fn key_present(
    list: Seq<CategoryView>,
    category: Seq<char>,
    subcategory: Seq<char>,
) -> bool {
    exists|i: int| 0 <= i < list.len() && has_key(#[trigger] list[i], category, subcategory)
}

/// No link occurs twice in `links`.
pub open spec fn links_unique(links: Seq<(u16, Seq<char>)>) -> bool {
    forall|i: int, j: int| 0 <= i < j < links.len() ==> links[i] != links[j]
}

/// Well-formed catalog: keys are unique, and so are the links of each entry.
pub open spec fn catalog_wf(list: Seq<CategoryView>) -> bool {
    &&& forall|i: int, j: int|
        0 <= i < j < list.len() ==> !has_key(#[trigger] list[i], list[j].category, #[trigger] list[j].subcategory)
    &&& forall|i: int| 0 <= i < list.len() ==> links_unique(#[trigger] list[i].links)
}

/// An entry after `link` was merged into it, given that its key matched.
pub open spec fn entry_with_link(entry: CategoryView, link: (u16, Seq<char>)) -> CategoryView {
    if entry.links.contains(link) {
        entry
    } else {
        CategoryView {
            category: entry.category,
            subcategory: entry.subcategory,
            links: entry.links.push(link),
        }
    }
}

/// The catalog after merging one link under `(category, subcategory)`: every
/// entry with that key gains the link unless it already holds it; where no
/// entry has the key, a new entry holding just the link goes to the end.
pub open spec fn merge_link(
    list: Seq<CategoryView>,
    category: Seq<char>,
    subcategory: Seq<char>,
    link: (u16, Seq<char>),
) -> Seq<CategoryView> {
    if key_present(list, category, subcategory) {
        Seq::new(
            list.len(),
            |i: int|
                if has_key(list[i], category, subcategory) {
                    entry_with_link(list[i], link)
                } else {
                    list[i]
                },
        )
    } else {
        list.push(CategoryView { category, subcategory, links: seq![link] })
    }
}

/// The catalog after merging `links` under one key, one after the other.
pub open spec fn merge_links(
    list: Seq<CategoryView>,
    category: Seq<char>,
    subcategory: Seq<char>,
    links: Seq<(u16, Seq<char>)>,
) -> Seq<CategoryView>
    decreases links.len(),
{
    if links.len() == 0 {
        list
    } else {
        merge_link(
            merge_links(list, category, subcategory, links.drop_last()),
            category,
            subcategory,
            links.last(),
        )
    }
}

/// The catalog after merging the links of `incoming` under its key.
pub open spec fn merge_category(list: Seq<CategoryView>, incoming: CategoryView) -> Seq<CategoryView> {
    merge_links(list, incoming.category, incoming.subcategory, incoming.links)
}

impl Link {
    fn copy_of(&self) -> (r: Link)
        ensures
            r@ == self@,
    {
        Link { id: self.id, link: self.link.clone() }
    }
}

/// Whether `links` holds a link equal to `link` in id and text.
fn links_contain(links: &Vec<Link>, link: &Link) -> (r: bool)
    ensures
        r == links_view(links@).contains(link@),
{
    let mut i: usize = 0;
    while i < links.len()
        invariant
            0 <= i <= links.len(),
            forall|k: int| 0 <= k < i ==> links@[k]@ != link@,
        decreases links.len() - i,
    {
        if links[i].id == link.id && links[i].link == link.link {
            assert(links_view(links@)[i as int] == link@);
            return true;
        }
        i += 1;
    }
    assert forall|k: int| 0 <= k < links_view(links@).len() implies links_view(links@)[k] != link@ by {
        assert(links_view(links@)[k] == links@[k]@);
    }
    false
}

impl RstDoc {
    pub fn new() -> (r: RstDoc)
        ensures
            r@ == Seq::<CategoryView>::empty(),
    {
        RstDoc { list: Vec::new() }
    }

    /// Merges one link under the key `(category, subcategory)`.
    pub fn append_link(&mut self, category: &String, subcategory: &String, link: &Link)
        ensures
            final(self)@ == merge_link(old(self)@, category@, subcategory@, link@),
    {
        let ghost before = self@;
        let ghost expected = merge_link(before, category@, subcategory@, link@);
        let mut found = false;
        let mut i: usize = 0;
        while i < self.list.len()
            invariant
                0 <= i <= self.list.len(),
                self.list.len() == before.len(),
                found == exists|j: int| 0 <= j < i && has_key(#[trigger] before[j], category@, subcategory@),
                forall|j: int| 0 <= j < i ==> #[trigger] self@[j] == if has_key(before[j], category@, subcategory@) {
                    entry_with_link(before[j], link@)
                } else {
                    before[j]
                },
                forall|j: int| i <= j < self.list.len() ==> #[trigger] self@[j] == before[j],
            decreases self.list.len() - i,
        {
            let ghost prev = self@;
            assert(self@[i as int] == before[i as int]);
            assert(self@[i as int] == self.list@[i as int]@);
            if self.list[i].category == *category && self.list[i].subcategory == *subcategory {
                assert(has_key(before[i as int], category@, subcategory@));
                found = true;
                if !links_contain(&self.list[i].links, link) {
                    let ghost prior = self.list@[i as int].links@;
                    self.list[i].links.push(link.copy_of());
                    assert(links_view(self.list@[i as int].links@) =~= links_view(prior).push(link@));
                }
                assert(self@[i as int] == entry_with_link(before[i as int], link@));
            } else {
                assert(!has_key(before[i as int], category@, subcategory@));
            }
            assert forall|j: int| 0 <= j < self.list.len() && j != i implies #[trigger] self@[j] == prev[j] by {
                assert(self@[j] == self.list@[j]@);
            }
            i += 1;
        }
        assert(found == key_present(before, category@, subcategory@));
        if !found {
            let mut links: Vec<Link> = Vec::new();
            links.push(link.copy_of());
            assert(links_view(links@) =~= seq![link@]);
            let ghost kept = self@;
            assert(kept =~= before);
            self.list.push(Category { category: category.clone(), subcategory: subcategory.clone(), links });
            assert forall|j: int| 0 <= j < before.len() implies #[trigger] self@[j] == before[j] by {
                assert(self@[j] == self.list@[j]@);
            }
            assert(self@ =~= expected);
        } else {
            assert(self@ =~= expected);
        }
    }

    /// Merges every link of `cat` under its key, one after the other.
    pub fn append(&mut self, cat: &Category)
        ensures
            final(self)@ == merge_category(old(self)@, cat@),
    {
        let ghost before = self@;
        let ghost incoming = links_view(cat.links@);
        let mut k: usize = 0;
        while k < cat.links.len()
            invariant
                0 <= k <= cat.links.len(),
                incoming == links_view(cat.links@),
                self@ == merge_links(before, cat.category@, cat.subcategory@, incoming.take(k as int)),
            decreases cat.links.len() - k,
        {
            self.append_link(&cat.category, &cat.subcategory, &cat.links[k]);
            assert(incoming.take(k + 1).drop_last() =~= incoming.take(k as int));
            k += 1;
        }
        assert(incoming.take(k as int) =~= incoming);
    }

    /// Adds the categories read from the persisted catalog after the present ones.
    pub fn extend(&mut self, cats: Vec<Category>)
        ensures
            final(self)@ == old(self)@ + categories_view(cats@),
    {
        let mut cats = cats;
        let ghost added = cats@;
        let ghost prior = self.list@;
        self.list.append(&mut cats);
        assert(self@ =~= categories_view(prior) + categories_view(added));
    }
}

/// Merging the same link twice under the same key leaves the catalog as
/// merging it once did.
pub proof fn lemma_merge_link_idempotent(
    list: Seq<CategoryView>,
    category: Seq<char>,
    subcategory: Seq<char>,
    link: (u16, Seq<char>),
)
    ensures
        merge_link(merge_link(list, category, subcategory, link), category, subcategory, link)
            == merge_link(list, category, subcategory, link),
{
    let once = merge_link(list, category, subcategory, link);
    if key_present(list, category, subcategory) {
        let w = choose|i: int| 0 <= i < list.len() && has_key(#[trigger] list[i], category, subcategory);
        assert(has_key(once[w], category, subcategory));
    } else {
        assert(has_key(once[list.len() as int], category, subcategory));
    }
    assert forall|i: int| 0 <= i < once.len() && has_key(#[trigger] once[i], category, subcategory) implies
        once[i].links.contains(link) by {
        if i < list.len() {
            if !list[i].links.contains(link) {
                assert(once[i].links.last() == link);
            }
        } else {
            assert(once[i].links[0] == link);
        }
    }
    assert(merge_link(once, category, subcategory, link) =~= once);
}

/// Merging one link keeps keys unique and the links of every entry unique.
pub proof fn lemma_merge_link_wf(
    list: Seq<CategoryView>,
    category: Seq<char>,
    subcategory: Seq<char>,
    link: (u16, Seq<char>),
)
    requires
        catalog_wf(list),
    ensures
        catalog_wf(merge_link(list, category, subcategory, link)),
{
    let m = merge_link(list, category, subcategory, link);
    assert forall|i: int| 0 <= i < list.len() implies #[trigger] m[i].category == list[i].category
        && m[i].subcategory == list[i].subcategory by {}
    assert forall|i: int| 0 <= i < m.len() implies links_unique(#[trigger] m[i].links) by {
        if i < list.len() {
            if has_key(list[i], category, subcategory) && !list[i].links.contains(link) {
                let ls = list[i].links;
                assert forall|a: int, b: int| 0 <= a < b < ls.push(link).len() implies ls.push(link)[a]
                    != ls.push(link)[b] by {
                    if b == ls.len() {
                        assert(ls.contains(ls[a]));
                    }
                }
            }
        }
    }
}

/// Merging the links of a category, one after the other, keeps the catalog
/// well formed.
pub proof fn lemma_merge_category_wf(list: Seq<CategoryView>, incoming: CategoryView)
    requires
        catalog_wf(list),
    ensures
        catalog_wf(merge_category(list, incoming)),
    decreases incoming.links.len(),
{
    if incoming.links.len() > 0 {
        let shorter = CategoryView {
            category: incoming.category,
            subcategory: incoming.subcategory,
            links: incoming.links.drop_last(),
        };
        lemma_merge_category_wf(list, shorter);
        lemma_merge_link_wf(
            merge_category(list, shorter),
            incoming.category,
            incoming.subcategory,
            incoming.links.last(),
        );
    }
}

/// Merging keeps every present entry where it was, under its key, with its
/// links first and at most the new link after them; a key not yet present
/// gets a new entry after all present ones.
pub proof fn lemma_merge_link_order(
    list: Seq<CategoryView>,
    category: Seq<char>,
    subcategory: Seq<char>,
    link: (u16, Seq<char>),
)
    ensures
        ({
            let m = merge_link(list, category, subcategory, link);
            &&& forall|i: int| 0 <= i < list.len() ==> {
                &&& (#[trigger] m[i]).category == list[i].category
                &&& m[i].subcategory == list[i].subcategory
                &&& m[i].links == list[i].links + if has_key(list[i], category, subcategory)
                    && !list[i].links.contains(link) {
                    seq![link]
                } else {
                    Seq::empty()
                }
            }
            &&& key_present(list, category, subcategory) ==> m.len() == list.len()
            &&& !key_present(list, category, subcategory) ==> m == list.push(
                CategoryView { category, subcategory, links: seq![link] },
            )
        }),
{
    let m = merge_link(list, category, subcategory, link);
    assert forall|i: int| 0 <= i < list.len() implies (#[trigger] m[i]).links == list[i].links + if has_key(
        list[i],
        category,
        subcategory,
    ) && !list[i].links.contains(link) {
        seq![link]
    } else {
        Seq::empty()
    } by {
        if has_key(list[i], category, subcategory) && !list[i].links.contains(link) {
            assert(list[i].links.push(link) =~= list[i].links + seq![link]);
        } else {
            assert(list[i].links =~= list[i].links + Seq::<(u16, Seq<char>)>::empty());
        }
    }
}

} // verus!
