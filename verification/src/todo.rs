//! The todo list: sections of checkable items, addressed by a 1-based
//! global index that runs across all sections in order.
//!
//! Reading and writing the backing markdown file happens outside the
//! library; these types hold the parsed list and every rule for editing it.

use vstd::prelude::*;
use vstd::string::StringExecFns;

use crate::text::str_eq;

verus! {

/// One todo entry: its 1-based position within its section, whether it is
/// done, and its text.
#[derive(Debug)]
pub struct TodoItem {
    pub index: usize,
    pub completed: bool,
    pub description: String,
}

impl Clone for TodoItem {
    fn clone(&self) -> (r: Self)
        ensures
            r == *self,
    {
        TodoItem { index: self.index, completed: self.completed, description: self.description.clone() }
    }
}

impl TodoItem {
    /// The mark between the brackets: `x` when done, a space otherwise.
    pub fn checkbox(&self) -> (r: &'static str)
        ensures
            self.completed ==> r@ == "x"@,
            !self.completed ==> r@ == " "@,
    {
        if self.completed {
            "x"
        } else {
            " "
        }
    }

    /// The markdown line for this item, without its trailing newline.
    pub fn to_output_format(&self) -> (r: String)
        ensures
            r@ == "- ["@ + (if self.completed {
                "x"@
            } else {
                " "@
            }) + "] "@ + self.description@,
    {
        let mut out = {
            let b = "- [";
            b.to_owned()
        };
        out.append(self.checkbox());
        out.append("] ");
        out.append(self.description.as_str());
        out
    }
}

/// A heading and the items under it.
#[derive(Debug)]
pub struct TodoSection {
    pub name: String,
    pub level: usize,
    pub items: Vec<TodoItem>,
}

impl Clone for TodoSection {
    fn clone(&self) -> (r: Self)
        ensures
            r.name == self.name,
            r.level == self.level,
            r.items@ == self.items@,
    {
        let mut items: Vec<TodoItem> = Vec::new();
        let mut k: usize = 0;
        while k < self.items.len()
            invariant
                0 <= k <= self.items@.len(),
                items@ =~= self.items@.subrange(0, k as int),
            decreases self.items@.len() - k,
        {
            items.push(self.items[k].clone());
            k = k + 1;
        }
        proof {
            assert(items@ =~= self.items@);
        }
        TodoSection { name: self.name.clone(), level: self.level, items }
    }
}

/// `level` hash marks: the markdown heading prefix.
pub open spec fn heading_marks(level: int) -> Seq<char>
    decreases level when level >= 0
{
    if level <= 0 {
        Seq::empty()
    } else {
        heading_marks(level - 1).push('#')
    }
}

/// The markdown lines of a section from item `i` on.
pub open spec fn items_output_from(items: Seq<TodoItem>, i: int) -> Seq<char>
    decreases items.len() - i when 0 <= i
{
    if i >= items.len() {
        Seq::empty()
    } else {
        "- ["@ + (if items[i].completed {
            "x"@
        } else {
            " "@
        }) + "] "@ + items[i].description@ + "\n"@ + items_output_from(items, i + 1)
    }
}

impl TodoSection {
    /// An empty section under the given heading.
    pub fn new(name: String, level: usize) -> (r: Self)
        ensures
            r.name == name,
            r.level == level,
            r.items@ == Seq::<TodoItem>::empty(),
    {
        Self { name, level, items: Vec::new() }
    }

    /// The section as markdown: its heading line, then one line per item.
    pub fn to_output_format(&self) -> (r: String)
        ensures
            r@ == heading_marks(self.level as int) + " "@ + self.name@ + "\n"@ + items_output_from(
                self.items@,
                0,
            ),
    {
        let mut out = String::new();
        let mut k: usize = 0;
        while k < self.level
            invariant
                0 <= k <= self.level,
                out@ =~= heading_marks(k as int),
            decreases self.level - k,
        {
            out.append("#");
            proof {
                assert("#"@ =~= seq!['#']) by {
                    reveal_strlit("#");
                }
            }
            k = k + 1;
        }
        out.append(" ");
        out.append(self.name.as_str());
        out.append("\n");
        let ghost header = heading_marks(self.level as int) + " "@ + self.name@ + "\n"@;
        proof {
            assert(out@ =~= header);
        }
        let mut i: usize = 0;
        while i < self.items.len()
            invariant
                0 <= i <= self.items@.len(),
                out@ + items_output_from(self.items@, i as int) =~= header + items_output_from(
                    self.items@,
                    0,
                ),
            decreases self.items@.len() - i,
        {
            let line = self.items[i].to_output_format();
            out.append(line.as_str());
            out.append("\n");
            i = i + 1;
            proof {
                assert(out@ + items_output_from(self.items@, i as int) =~= header
                    + items_output_from(self.items@, 0));
            }
        }
        out
    }
}

/// Why an edit of the todo list was refused.
#[derive(Clone, Copy, Debug, PartialEq, Eq, Structural)]
pub enum TodoError {
    /// The list holds no items at all.
    NoItems,
    /// The given 1-based index lies outside the list.
    InvalidIndex,
    /// No section carries the requested name.
    SectionNotFound,
    /// The item to insert after sits in a different section.
    AfterIndexInDifferentSection,
    /// The index to insert after lies outside the list.
    InvalidAfterIndex,
    /// Section headings exist at levels 1 and 2 only.
    InvalidSectionLevel,
    /// A section with this name already exists.
    SectionExists,
}

impl TodoError {
    /// A short description, for display by the caller.
    pub fn message(&self) -> (r: &'static str)
        ensures
            self is NoItems ==> r@ == "No todo items found."@,
    {
        match self {
            TodoError::NoItems => "No todo items found.",
            TodoError::InvalidIndex => "Invalid index: outside the valid range",
            TodoError::SectionNotFound => "Section not found",
            TodoError::AfterIndexInDifferentSection => {
                "Cannot insert after an item in a different section"
            },
            TodoError::InvalidAfterIndex => "Invalid after_index",
            TodoError::InvalidSectionLevel => "Section level must be 1 (h1) or 2 (h2)",
            TodoError::SectionExists => "Section already exists",
        }
    }
}

/// The whole todo list and the path of its backing file.
#[derive(Debug)]
pub struct TodoFile {
    pub sections: Vec<TodoSection>,
    pub file_path: String,
}

/// How many items the first `i` sections hold.
pub open spec fn items_before(sections: Seq<TodoSection>, i: int) -> int
    decreases i when i >= 0
{
    if i <= 0 {
        0
    } else {
        items_before(sections, i - 1) + sections[i - 1].items@.len()
    }
}

/// The section holding the item with 1-based global index `g` (the first
/// section whose items reach `g`).
pub open spec fn section_of_global(sections: Seq<TodoSection>, g: int, i: int) -> int
    decreases sections.len() - i when 0 <= i
{
    if i >= sections.len() {
        i
    } else if items_before(sections, i + 1) >= g {
        i
    } else {
        section_of_global(sections, g, i + 1)
    }
}

/// Counts of earlier items never decrease.
pub proof fn lemma_items_before_monotonic(sections: Seq<TodoSection>, i: int, j: int)
    requires
        0 <= i <= j,
    ensures
        items_before(sections, i) <= items_before(sections, j),
    decreases j - i,
{
    if i < j {
        lemma_items_before_monotonic(sections, i, j - 1);
    }
}

/// The section whose item range covers global index `g` is the one the
/// scan finds.
pub proof fn lemma_section_of_global_locate(sections: Seq<TodoSection>, g: int, si: int)
    requires
        0 <= si < sections.len(),
        items_before(sections, si) < g,
        g <= items_before(sections, si + 1),
    ensures
        section_of_global(sections, g, 0) == si,
{
    lemma_section_of_global_from(sections, g, si, 0);
}

proof fn lemma_section_of_global_from(sections: Seq<TodoSection>, g: int, si: int, i: int)
    requires
        0 <= i <= si < sections.len(),
        items_before(sections, si) < g,
        g <= items_before(sections, si + 1),
    ensures
        section_of_global(sections, g, i) == si,
    decreases si - i,
{
    if i < si {
        lemma_items_before_monotonic(sections, i + 1, si);
        lemma_section_of_global_from(sections, g, si, i + 1);
    }
}

/// The entry at 0-based position `k` of the flattened item list mirrors the
/// item with global index `k + 1`: its own global index, a copy of the
/// section it sits in, and the item itself.
pub open spec fn entry_matches_source(
    e: (usize, TodoSection, TodoItem),
    sections: Seq<TodoSection>,
    k: int,
) -> bool {
    let si = section_of_global(sections, k + 1, 0);
    let ij = k - items_before(sections, si);
    &&& e.0 == k + 1
    &&& 0 <= si < sections.len()
    &&& 0 <= ij < sections[si].items@.len()
    &&& e.1.name == sections[si].name
    &&& e.1.level == sections[si].level
    &&& e.1.items@ == sections[si].items@
    &&& e.2 == sections[si].items@[ij]
}

/// `all` flattens the sections' items in document order, one entry per item
/// with its 1-based global index.
pub open spec fn is_flattened_items(
    all: Seq<(usize, TodoSection, TodoItem)>,
    sections: Seq<TodoSection>,
) -> bool {
    &&& all.len() == items_before(sections, sections.len() as int)
    &&& forall|k: int| 0 <= k < all.len() ==> entry_matches_source(#[trigger] all[k], sections, k)
}

/// The first section carrying `name`, or the section count when none does.
pub open spec fn first_section_named(sections: Seq<TodoSection>, name: Seq<char>, i: int) -> int
    decreases sections.len() - i when 0 <= i
{
    if i >= sections.len() {
        sections.len() as int
    } else if sections[i].name@ == name {
        i
    } else {
        first_section_named(sections, name, i + 1)
    }
}

/// Renumber the items 1, 2, 3, ... leaving everything else about them
/// untouched.
fn reindex_items(items: &mut Vec<TodoItem>)
    ensures
        final(items)@.len() == old(items)@.len(),
        forall|j: int|
            0 <= j < final(items)@.len() ==> (#[trigger] final(items)@[j]).index == j + 1 && final(items)@[j].description == old(items)@[j].description && final(items)@[j].completed == old(items)@[j].completed,
{
    let mut i: usize = 0;
    while i < items.len()
        invariant
            0 <= i <= items@.len(),
            items@.len() == old(items)@.len(),
            forall|j: int|
                0 <= j < items@.len() ==> (#[trigger] items@[j]).description == old(items)@[j].description && items@[j].completed == old(items)@[j].completed,
            forall|j: int| 0 <= j < i ==> (#[trigger] items@[j]).index == j + 1,
        decreases items@.len() - i,
    {
        let mut it = items.remove(i);
        it.index = i + 1;
        items.insert(i, it);
        i = i + 1;
    }
}

impl TodoFile {
    /// The total number of items, summed over the sections.
    pub open spec fn spec_total_items(&self) -> int {
        items_before(self.sections@, self.sections@.len() as int)
    }

    /// Count the items across all sections. (The count is capped at the
    /// machine's word size, which the items, each occupying memory, cannot
    /// reach.)
    pub fn total_items(&self) -> (r: usize)
        ensures
            self.spec_total_items() <= usize::MAX ==> r == self.spec_total_items(),
    {
        let mut total: usize = 0;
        let mut i: usize = 0;
        while i < self.sections.len()
            invariant
                0 <= i <= self.sections@.len(),
                items_before(self.sections@, i as int) <= usize::MAX ==> total == items_before(
                    self.sections@,
                    i as int,
                ),
                total <= items_before(self.sections@, i as int),
            decreases self.sections@.len() - i,
        {
            proof {
                lemma_items_before_monotonic(self.sections@, i as int, i + 1);
            }
            let l = self.sections[i].items.len();
            if total <= usize::MAX - l {
                total = total + l;
            } else {
                total = usize::MAX;
            }
            i = i + 1;
        }
        total
    }

    /// Check that a 1-based index addresses an existing item.
    pub fn validate_user_index(&self, user_index: usize) -> (r: Result<(), TodoError>)
        requires
            self.spec_total_items() <= usize::MAX,
        ensures
            self.spec_total_items() == 0 ==> r == Err::<(), TodoError>(TodoError::NoItems),
            self.spec_total_items() > 0 && (user_index == 0 || user_index
                > self.spec_total_items()) ==> r == Err::<(), TodoError>(TodoError::InvalidIndex),
            r is Ok <==> 1 <= user_index <= self.spec_total_items(),
    {
        let total = self.total_items();
        if total == 0 {
            return Err(TodoError::NoItems);
        }
        if user_index == 0 || user_index > total {
            return Err(TodoError::InvalidIndex);
        }
        Ok(())
    }

    /// All items with their 1-based global indices, flattened across the
    /// sections in order: entry `k` holds the `k+1`-th item of the list,
    /// paired with a copy of its section.
    pub fn all_items(&self) -> (r: Vec<(usize, TodoSection, TodoItem)>)
        requires
            self.spec_total_items() <= usize::MAX,
        ensures
            r@.len() == self.spec_total_items(),
            is_flattened_items(r@, self.sections@),
    {
        let mut result: Vec<(usize, TodoSection, TodoItem)> = Vec::new();
        let mut si: usize = 0;
        while si < self.sections.len()
            invariant
                0 <= si <= self.sections@.len(),
                self.spec_total_items() <= usize::MAX,
                result@.len() == items_before(self.sections@, si as int),
                forall|k: int|
                    0 <= k < result@.len() ==> entry_matches_source(
                        #[trigger] result@[k],
                        self.sections@,
                        k,
                    ),
            decreases self.sections@.len() - si,
        {
            proof {
                lemma_items_before_monotonic(self.sections@, si + 1, self.sections@.len() as int);
            }
            let items_len = self.sections[si].items.len();
            let mut ij: usize = 0;
            while ij < items_len
                invariant
                    0 <= ij <= items_len,
                    0 <= si < self.sections@.len(),
                    items_len == self.sections@[si as int].items@.len(),
                    self.spec_total_items() <= usize::MAX,
                    items_before(self.sections@, si + 1) <= usize::MAX,
                    result@.len() == items_before(self.sections@, si as int) + ij,
                    forall|k: int|
                        0 <= k < result@.len() ==> entry_matches_source(
                            #[trigger] result@[k],
                            self.sections@,
                            k,
                        ),
                decreases items_len - ij,
            {
                let global_index = result.len() + 1;
                let section_copy = self.sections[si].clone();
                let item_copy = self.sections[si].items[ij].clone();
                result.push((global_index, section_copy, item_copy));
                proof {
                    let ghost k = result@.len() - 1;
                    assert(items_before(self.sections@, si + 1) == items_before(
                        self.sections@,
                        si as int,
                    ) + items_len);
                    lemma_section_of_global_locate(self.sections@, k + 1, si as int);
                    assert(entry_matches_source(result@[k], self.sections@, k));
                }
                ij = ij + 1;
            }
            si = si + 1;
        }
        result
    }

    /// Whether a filtered listing keeps this entry.
    pub open spec fn spec_keeps(
        show_pending: bool,
        show_completed: bool,
        e: (usize, TodoSection, TodoItem),
    ) -> bool {
        (show_pending && !e.2.completed) || (show_completed && e.2.completed)
    }

    /// The items to show: the whole flattened list when no filter is
    /// requested, else exactly the entries whose completion flag the flags
    /// keep, in document order and with their global indices kept.
    pub fn get_filtered_items(&self, show_pending: bool, show_completed: bool) -> (r: Vec<
        (usize, TodoSection, TodoItem),
    >)
        requires
            self.spec_total_items() <= usize::MAX,
        ensures
            exists|all: Seq<(usize, TodoSection, TodoItem)>|
                #[trigger] is_flattened_items(all, self.sections@) && r@ == (
                if !show_pending && !show_completed {
                    all
                } else {
                    all.filter(
                        |e: (usize, TodoSection, TodoItem)|
                            Self::spec_keeps(show_pending, show_completed, e),
                    )
                }),
    {
        let mut all = self.all_items();
        let ghost all0 = all@;
        if !show_pending && !show_completed {
            return all;
        }
        let mut out: Vec<(usize, TodoSection, TodoItem)> = Vec::new();
        let mut k: usize = 0;
        proof {
            reveal(Seq::filter);
            assert(all0.take(0) =~= Seq::<(usize, TodoSection, TodoItem)>::empty());
            assert(all0.take(0).filter(
                |e: (usize, TodoSection, TodoItem)|
                    Self::spec_keeps(show_pending, show_completed, e),
            ) =~= Seq::<(usize, TodoSection, TodoItem)>::empty());
        }
        while all.len() > 0
            invariant
                0 <= k <= all0.len(),
                all0.len() <= usize::MAX,
                all@ =~= all0.skip(k as int),
                out@ =~= all0.take(k as int).filter(
                    |e: (usize, TodoSection, TodoItem)|
                        Self::spec_keeps(show_pending, show_completed, e),
                ),
            decreases all@.len(),
        {
            let entry = all.remove(0);
            proof {
                assert(entry == all0[k as int]);
                assert(all0.take(k + 1).drop_last() =~= all0.take(k as int));
                assert(all0.take(k + 1).last() == all0[k as int]);
            }
            let keep = (show_pending && !entry.2.completed) || (show_completed
                && entry.2.completed);
            if keep {
                out.push(entry);
            }
            k = k + 1;
            proof {
                reveal(Seq::filter);
                assert(all@ =~= all0.skip(k as int));
                assert(out@ =~= all0.take(k as int).filter(
                    |e: (usize, TodoSection, TodoItem)|
                        Self::spec_keeps(show_pending, show_completed, e),
                ));
            }
        }
        proof {
            assert(all0.take(all0.len() as int) =~= all0);
        }
        out
    }

    /// Add an item at the end of the named section (the first section when
    /// none is named), at its top, or right after an existing item of that
    /// section. A first default section is created when the list has none
    /// and no section is named, and it stays even when the insertion then
    /// fails.
    pub fn add_item(
        &mut self,
        description: String,
        section_name: Option<String>,
        at_top: bool,
        after_index: Option<usize>,
    ) -> (r: Result<(), TodoError>)
        requires
            old(self).spec_total_items() + 1 <= usize::MAX,
        ensures
            section_name matches Some(n) ==> (first_section_named(old(self).sections@, n@, 0)
                == old(self).sections@.len() <==> r == Err::<(), TodoError>(
                TodoError::SectionNotFound,
            )),
            section_name is Some && r is Err ==> *final(self) == *old(self),
            (at_top || after_index is None) && (section_name is None || first_section_named(
                old(self).sections@,
                section_name->Some_0@,
                0,
            ) < old(self).sections@.len()) ==> r is Ok,
            r is Err ==> final(self).spec_total_items() == old(self).spec_total_items(),
            r is Ok ==> final(self).spec_total_items() == old(self).spec_total_items() + 1,
            r is Ok ==> exists|si: int, p: int|
                #![trigger final(self).sections@[si].items@[p]]
                0 <= si < final(self).sections@.len() && 0 <= p
                    < final(self).sections@[si].items@.len()
                    && final(self).sections@[si].items@[p].description == description
                    && final(self).sections@[si].items@[p].index == p + 1
                    && !final(self).sections@[si].items@[p].completed,
            final(self).file_path == old(self).file_path,
    {
        let ghost old_self = *old(self);
        let section_index: usize;
        match &section_name {
            Some(name) => {
                match self.find_section_named(name.as_str()) {
                    Some(idx) => {
                        section_index = idx;
                    },
                    None => {
                        return Err(TodoError::SectionNotFound);
                    },
                }
            },
            None => {
                if self.sections.len() == 0 {
                    let name = {
                        let t = "Todo";
                        t.to_owned()
                    };
                    self.sections.push(TodoSection::new(name, 1));
                    proof {
                        lemma_items_before_push(old_self.sections@, self.sections@);
                    }
                }
                section_index = 0;
            },
        }
        let ghost base = *self;
        let insertion_index: usize;
        if at_top {
            insertion_index = 0;
        } else if let Some(after_idx) = after_index {
            match self.local_index_after(section_index, after_idx) {
                Ok(local) => {
                    insertion_index = local;
                },
                Err(e) => {
                    return Err(e);
                },
            }
        } else {
            insertion_index = self.sections[section_index].items.len();
        }
        let new_item = TodoItem { index: 0, completed: false, description };
        let ghost the_description = new_item.description;
        let mut section = self.sections.remove(section_index);
        let ghost old_items_len = section.items@.len() as int;
        let ghost pos = insertion_index as int;
        if insertion_index <= section.items.len() {
            section.items.insert(insertion_index, new_item);
        } else {
            proof {
                pos = section.items@.len() as int;
            }
            section.items.push(new_item);
        }
        proof {
            assert(section.items@[pos].description == the_description);
            assert(!section.items@[pos].completed);
        }
        reindex_items(&mut section.items);
        self.sections.insert(section_index, section);
        proof {
            assert(self.sections@[section_index as int].items@[pos].description
                == the_description);
            assert(self.sections@[section_index as int].items@[pos].index == pos + 1);
            assert(!self.sections@[section_index as int].items@[pos].completed);
            lemma_items_before_change_one(
                base.sections@,
                self.sections@,
                section_index as int,
                1,
            );
        }
        Ok(())
    }

    /// The first section carrying `name`, when one exists.
    fn find_section_named(&self, name: &str) -> (r: Option<usize>)
        ensures
            r matches Some(i) ==> i == first_section_named(self.sections@, name@, 0) && i
                < self.sections@.len(),
            r is None ==> first_section_named(self.sections@, name@, 0)
                == self.sections@.len(),
    {
        let mut i: usize = 0;
        while i < self.sections.len()
            invariant
                0 <= i <= self.sections@.len(),
                first_section_named(self.sections@, name@, 0) == first_section_named(
                    self.sections@,
                    name@,
                    i as int,
                ),
            decreases self.sections@.len() - i,
        {
            if str_eq(self.sections[i].name.as_str(), name) {
                return Some(i);
            }
            i = i + 1;
        }
        None
    }

    /// The local insertion position just after the item with global index
    /// `after_idx`, which must lie in the target section.
    fn local_index_after(&self, section_index: usize, after_idx: usize) -> (r: Result<
        usize,
        TodoError,
    >)
        requires
            section_index < self.sections@.len(),
        ensures
            r matches Ok(local) ==> local <= self.sections@[section_index as int].items@.len(),
            r is Err ==> (r == Err::<usize, TodoError>(TodoError::AfterIndexInDifferentSection)
                || r == Err::<usize, TodoError>(TodoError::InvalidAfterIndex)),
    {
        let mut global_index: usize = 1;
        let mut sec: usize = 0;
        while sec < self.sections.len()
            invariant
                0 <= sec <= self.sections@.len(),
                section_index < self.sections@.len(),
                1 <= global_index,
                global_index - 1 == items_before(self.sections@, sec as int),
                self.spec_total_items() < usize::MAX ==> global_index <= usize::MAX,
            decreases self.sections@.len() - sec,
        {
            let items_len = self.sections[sec].items.len();
            let mut item_idx: usize = 0;
            while item_idx < items_len
                invariant
                    0 <= item_idx <= items_len,
                    sec < self.sections@.len(),
                    section_index < self.sections@.len(),
                    items_len == self.sections@[sec as int].items@.len(),
                    global_index - 1 == items_before(self.sections@, sec as int) + item_idx,
                    1 <= global_index,
                decreases items_len - item_idx,
            {
                if global_index == after_idx {
                    if sec == section_index {
                        return Ok(item_idx + 1);
                    } else {
                        return Err(TodoError::AfterIndexInDifferentSection);
                    }
                }
                if global_index == usize::MAX {
                    return Err(TodoError::InvalidAfterIndex);
                }
                global_index = global_index + 1;
                item_idx = item_idx + 1;
            }
            sec = sec + 1;
        }
        Err(TodoError::InvalidAfterIndex)
    }

    /// Remove the item with the given 1-based global index, re-indexing the
    /// items of its section, and hand the removed item back.
    pub fn remove_item(&mut self, user_index: usize) -> (r: Result<TodoItem, TodoError>)
        requires
            old(self).spec_total_items() <= usize::MAX,
        ensures
            r is Ok <==> 1 <= user_index <= old(self).spec_total_items(),
            r is Err ==> *final(self) == *old(self) && (old(self).spec_total_items() == 0 ==> r
                == Err::<TodoItem, TodoError>(TodoError::NoItems)),
            r is Ok ==> final(self).spec_total_items() == old(self).spec_total_items() - 1,
            r matches Ok(it) ==> ({
                let sections0 = old(self).sections@;
                let si = section_of_global(sections0, user_index as int, 0);
                let local = user_index - 1 - items_before(sections0, si);
                &&& 0 <= si < sections0.len()
                &&& 0 <= local < sections0[si].items@.len()
                &&& it == sections0[si].items@[local]
                &&& final(self).sections@.len() == sections0.len()
                &&& forall|i: int|
                    0 <= i < sections0.len() && i != si ==> #[trigger] final(self).sections@[i]
                        == sections0[i]
                &&& final(self).sections@[si].name == sections0[si].name
                &&& final(self).sections@[si].level == sections0[si].level
                &&& final(self).sections@[si].items@.len() == sections0[si].items@.len() - 1
                &&& forall|j: int|
                    0 <= j < final(self).sections@[si].items@.len() ==> ({
                        let src = sections0[si].items@.remove(local);
                        &&& (#[trigger] final(self).sections@[si].items@[j]).index == j + 1
                        &&& final(self).sections@[si].items@[j].description == src[j].description
                        &&& final(self).sections@[si].items@[j].completed == src[j].completed
                    })
            }),
            final(self).file_path == old(self).file_path,
    {
        match self.validate_user_index(user_index) {
            Ok(()) => {},
            Err(e) => {
                return Err(e);
            },
        }
        let ghost old_sections = self.sections@;
        let mut global_index: usize = 1;
        let mut sec: usize = 0;
        while sec < self.sections.len()
            invariant
                0 <= sec <= self.sections@.len(),
                self.sections@ == old_sections,
                old_sections == old(self).sections@,
                self.file_path == old(self).file_path,
                1 <= user_index <= items_before(old_sections, old_sections.len() as int),
                items_before(old_sections, old_sections.len() as int) <= usize::MAX,
                1 <= global_index <= user_index,
                global_index - 1 == items_before(old_sections, sec as int),
            decreases self.sections@.len() - sec,
        {
            proof {
                lemma_items_before_monotonic(old_sections, sec + 1, old_sections.len() as int);
            }
            let items_len = self.sections[sec].items.len();
            if user_index - global_index < items_len {
                let local_index = user_index - global_index;
                let ghost before_sections = self.sections@;
                proof {
                    lemma_section_of_global_locate(old_sections, user_index as int, sec as int);
                }
                let mut section = self.sections.remove(sec);
                let removed_item = section.items.remove(local_index);
                reindex_items(&mut section.items);
                self.sections.insert(sec, section);
                proof {
                    assert(self.sections@.len() == before_sections.len());
                    assert forall|i: int|
                        0 <= i < before_sections.len() && i != sec as int implies (
                        #[trigger] self.sections@[i]) == before_sections[i] by {
                    }
                    lemma_items_before_change_one(
                        before_sections,
                        self.sections@,
                        sec as int,
                        -1,
                    );
                }
                return Ok(removed_item);
            }
            global_index = global_index + items_len;
            sec = sec + 1;
        }
        proof {
            assert(global_index - 1 == items_before(old_sections, old_sections.len() as int));
        }
        Err(TodoError::InvalidIndex)
    }

    /// Mark the item with the given 1-based global index done or pending.
    pub fn set_item_completion(&mut self, user_index: usize, completed: bool) -> (r: Result<
        (),
        TodoError,
    >)
        requires
            old(self).spec_total_items() <= usize::MAX,
        ensures
            r is Ok <==> 1 <= user_index <= old(self).spec_total_items(),
            r is Err ==> *final(self) == *old(self) && (old(self).spec_total_items() == 0 ==> r
                == Err::<(), TodoError>(TodoError::NoItems)),
            r is Ok ==> final(self).spec_total_items() == old(self).spec_total_items(),
            r is Ok ==> ({
                let sections0 = old(self).sections@;
                let si = section_of_global(sections0, user_index as int, 0);
                let local = user_index - 1 - items_before(sections0, si);
                &&& 0 <= si < sections0.len()
                &&& 0 <= local < sections0[si].items@.len()
                &&& final(self).sections@.len() == sections0.len()
                &&& forall|i: int|
                    0 <= i < sections0.len() && i != si ==> #[trigger] final(self).sections@[i]
                        == sections0[i]
                &&& final(self).sections@[si].name == sections0[si].name
                &&& final(self).sections@[si].level == sections0[si].level
                &&& final(self).sections@[si].items@.len() == sections0[si].items@.len()
                &&& forall|j: int|
                    0 <= j < sections0[si].items@.len() && j != local
                        ==> #[trigger] final(self).sections@[si].items@[j]
                        == sections0[si].items@[j]
                &&& final(self).sections@[si].items@[local].description
                    == sections0[si].items@[local].description
                &&& final(self).sections@[si].items@[local].index
                    == sections0[si].items@[local].index
                &&& final(self).sections@[si].items@[local].completed == completed
            }),
            final(self).file_path == old(self).file_path,
    {
        match self.validate_user_index(user_index) {
            Ok(()) => {},
            Err(e) => {
                return Err(e);
            },
        }
        let ghost old_sections = self.sections@;
        let mut global_index: usize = 1;
        let mut sec: usize = 0;
        while sec < self.sections.len()
            invariant
                0 <= sec <= self.sections@.len(),
                self.sections@ == old_sections,
                old_sections == old(self).sections@,
                self.file_path == old(self).file_path,
                1 <= user_index <= items_before(old_sections, old_sections.len() as int),
                items_before(old_sections, old_sections.len() as int) <= usize::MAX,
                1 <= global_index <= user_index,
                global_index - 1 == items_before(old_sections, sec as int),
            decreases self.sections@.len() - sec,
        {
            proof {
                lemma_items_before_monotonic(old_sections, sec + 1, old_sections.len() as int);
            }
            let items_len = self.sections[sec].items.len();
            if user_index - global_index < items_len {
                let local_index = user_index - global_index;
                proof {
                    lemma_section_of_global_locate(old_sections, user_index as int, sec as int);
                }
                let mut section = self.sections.remove(sec);
                let mut it = section.items.remove(local_index);
                it.completed = completed;
                section.items.insert(local_index, it);
                self.sections.insert(sec, section);
                proof {
                    assert(self.sections@.len() == old_sections.len());
                    assert forall|i: int|
                        0 <= i < old_sections.len() && i != sec as int implies (#[trigger] self
                            .sections@[i]) == old_sections[i] by {
                    }
                    assert forall|i: int|
                        0 <= i < old_sections.len() implies (#[trigger] self.sections@[i]).items@
                        .len() == old_sections[i].items@.len() by {
                        if i != sec as int {
                            assert(self.sections@[i] == old_sections[i]);
                        }
                    }
                    assert forall|j: int|
                        0 <= j < old_sections[sec as int].items@.len() && j != local_index
                            as int implies #[trigger] self.sections@[sec as int].items@[j]
                        == old_sections[sec as int].items@[j] by {
                    }
                    lemma_items_before_same_lens(old_sections, self.sections@);
                }
                return Ok(());
            }
            global_index = global_index + items_len;
            sec = sec + 1;
        }
        Err(TodoError::InvalidIndex)
    }

    /// Add an empty section with the given heading, at level 1 or 2, whose
    /// name no existing section carries.
    pub fn add_section(&mut self, name: String, level: usize) -> (r: Result<(), TodoError>)
        ensures
            !(level == 1 || level == 2) ==> r == Err::<(), TodoError>(TodoError::InvalidSectionLevel),
            r is Ok <==> (level == 1 || level == 2) && first_section_named(
                old(self).sections@,
                name@,
                0,
            ) == old(self).sections@.len(),
            r == Err::<(), TodoError>(TodoError::SectionExists) <==> (level == 1 || level == 2)
                && first_section_named(old(self).sections@, name@, 0) < old(self).sections@.len(),
            r is Ok ==> final(self).sections@.len() == old(self).sections@.len() + 1 && final(self).sections@.last().name == name && final(self).sections@.last().level == level && final(self).sections@.last().items@.len() == 0 && final(self).sections@.take(
                old(self).sections@.len() as int,
            ) == old(self).sections@,
            r is Err ==> *final(self) == *old(self),
            final(self).file_path == old(self).file_path,
    {
        if !(level == 1 || level == 2) {
            return Err(TodoError::InvalidSectionLevel);
        }
        let mut i: usize = 0;
        while i < self.sections.len()
            invariant
                0 <= i <= self.sections@.len(),
                level == 1 || level == 2,
                *self == *old(self),
                first_section_named(self.sections@, name@, 0) == first_section_named(
                    self.sections@,
                    name@,
                    i as int,
                ),
            decreases self.sections@.len() - i,
        {
            if str_eq(self.sections[i].name.as_str(), name.as_str()) {
                return Err(TodoError::SectionExists);
            }
            i = i + 1;
        }
        self.sections.push(TodoSection::new(name, level));
        proof {
            assert(final(self).sections@.take(old(self).sections@.len() as int) =~= old(self).sections@);
        }
        Ok(())
    }

    /// The sections, in order.
    pub fn list_sections(&self) -> (r: Vec<TodoSection>)
        ensures
            r@.len() == self.sections@.len(),
            forall|i: int|
                0 <= i < r@.len() ==> (#[trigger] r@[i]).name == self.sections@[i].name
                    && r@[i].level == self.sections@[i].level && r@[i].items@
                    == self.sections@[i].items@,
    {
        let mut out: Vec<TodoSection> = Vec::new();
        let mut i: usize = 0;
        while i < self.sections.len()
            invariant
                0 <= i <= self.sections@.len(),
                out@.len() == i,
                forall|j: int|
                    0 <= j < i ==> (#[trigger] out@[j]).name == self.sections@[j].name
                        && out@[j].level == self.sections@[j].level && out@[j].items@
                        == self.sections@[j].items@,
            decreases self.sections@.len() - i,
        {
            out.push(self.sections[i].clone());
            i = i + 1;
        }
        out
    }
}

/// Replacing one section leaves the item counts of the sections before it
/// unchanged.
proof fn lemma_items_before_unchanged_prefix(
    a: Seq<TodoSection>,
    b: Seq<TodoSection>,
    upto: int,
)
    requires
        0 <= upto <= a.len(),
        b.len() == a.len(),
        forall|i: int| 0 <= i < upto ==> a[i] == b[i],
    ensures
        forall|i: int| 0 <= i <= upto ==> items_before(a, i) == #[trigger] items_before(b, i),
{
    assert forall|i: int| 0 <= i <= upto implies items_before(a, i) == #[trigger] items_before(
        b,
        i,
    ) by {
        lemma_items_before_prefix_eq(a, b, i);
    }
}

proof fn lemma_items_before_prefix_eq(a: Seq<TodoSection>, b: Seq<TodoSection>, i: int)
    requires
        0 <= i <= a.len(),
        b.len() == a.len(),
        forall|k: int| 0 <= k < i ==> a[k] == b[k],
    ensures
        items_before(a, i) == items_before(b, i),
    decreases i,
{
    if i > 0 {
        lemma_items_before_prefix_eq(a, b, i - 1);
    }
}

/// When every section keeps its item count, every running count is kept.
proof fn lemma_items_before_same_lens(a: Seq<TodoSection>, b: Seq<TodoSection>)
    requires
        b.len() == a.len(),
        forall|i: int| 0 <= i < a.len() ==> (#[trigger] b[i]).items@.len() == a[i].items@.len(),
    ensures
        forall|i: int|
            0 <= i <= a.len() ==> items_before(a, i) == #[trigger] items_before(b, i),
{
    assert forall|i: int| 0 <= i <= a.len() implies items_before(a, i) == #[trigger] items_before(
        b,
        i,
    ) by {
        lemma_items_before_same_lens_upto(a, b, i);
    }
}

proof fn lemma_items_before_same_lens_upto(a: Seq<TodoSection>, b: Seq<TodoSection>, i: int)
    requires
        0 <= i <= a.len(),
        b.len() == a.len(),
        forall|k: int| 0 <= k < a.len() ==> (#[trigger] b[k]).items@.len() == a[k].items@.len(),
    ensures
        items_before(a, i) == items_before(b, i),
    decreases i,
{
    if i > 0 {
        lemma_items_before_same_lens_upto(a, b, i - 1);
    }
}

/// When one section's item count changes by `d` and the others keep
/// theirs, the total changes by `d`.
proof fn lemma_items_before_change_one(a: Seq<TodoSection>, b: Seq<TodoSection>, at: int, d: int)
    requires
        0 <= at < a.len(),
        b.len() == a.len(),
        forall|i: int|
            0 <= i < a.len() && i != at ==> (#[trigger] b[i]).items@.len() == a[i].items@.len(),
        b[at].items@.len() == a[at].items@.len() + d,
    ensures
        items_before(b, b.len() as int) == items_before(a, a.len() as int) + d,
{
    lemma_items_before_change_one_upto(a, b, at, d, a.len() as int);
}

proof fn lemma_items_before_change_one_upto(
    a: Seq<TodoSection>,
    b: Seq<TodoSection>,
    at: int,
    d: int,
    i: int,
)
    requires
        0 <= at < a.len(),
        0 <= i <= a.len(),
        b.len() == a.len(),
        forall|k: int|
            0 <= k < a.len() && k != at ==> (#[trigger] b[k]).items@.len() == a[k].items@.len(),
        b[at].items@.len() == a[at].items@.len() + d,
    ensures
        items_before(b, i) == items_before(a, i) + (if i > at {
            d
        } else {
            0int
        }),
    decreases i,
{
    if i > 0 {
        lemma_items_before_change_one_upto(a, b, at, d, i - 1);
    }
}

/// Appending an empty section leaves the total item count unchanged.
proof fn lemma_items_before_push(a: Seq<TodoSection>, b: Seq<TodoSection>)
    requires
        b.len() == a.len() + 1,
        forall|i: int| 0 <= i < a.len() ==> a[i] == b[i],
        b.last().items@.len() == 0,
    ensures
        items_before(b, b.len() as int) == items_before(a, a.len() as int),
{
    lemma_items_before_prefix_eq(a, b.take(a.len() as int), a.len() as int);
    assert(b.take(a.len() as int).len() == a.len());
    lemma_items_before_prefix_take(b, a.len() as int);
}

/// A running count only looks at the sections before its bound.
proof fn lemma_items_before_prefix_take(b: Seq<TodoSection>, i: int)
    requires
        0 <= i <= b.len(),
    ensures
        items_before(b, i) == items_before(b.take(i), i),
    decreases i,
{
    if i > 0 {
        lemma_items_before_prefix_take_upto(b, i, i);
    }
}

proof fn lemma_items_before_prefix_take_upto(b: Seq<TodoSection>, i: int, j: int)
    requires
        0 <= j <= i <= b.len(),
    ensures
        items_before(b, j) == items_before(b.take(i), j),
    decreases j,
{
    if j > 0 {
        lemma_items_before_prefix_take_upto(b, i, j - 1);
    }
}

} // verus!
