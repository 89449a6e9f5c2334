//! Item categories, their members and the values of their fields.

use crate::name_map::NameMap;
use crate::sequences::{first_where, lemma_first_where, lemma_first_where_found};
use vstd::prelude::*;

verus! {

/// Identifies a member within its item category.
#[derive(Clone, Copy, Debug, PartialEq, Eq, Structural, Hash, PartialOrd, Ord)]
pub struct ItemId(pub u32);

/// Whether a category holds the tasks to schedule (`B_Set`) or resources that
/// tasks are bound to (`E_Set`).
#[allow(non_camel_case_types)]
#[derive(Clone, Copy, Debug, PartialEq, Eq, Structural)]
pub enum SetType {
    B_Set,
    E_Set,
}

/// The value of a field. Dates are text in a format whose lexicographic
/// order is the order in time.
#[derive(Debug, PartialEq)]
pub enum Value {
    String(String),
    Number(i32),
    Date(String),
}

/// The mathematical content of a [`Value`].
pub enum ValueView {
    Text(Seq<char>),
    Number(i32),
    Date(Seq<char>),
}

impl View for Value {
    type V = ValueView;

    open spec fn view(&self) -> ValueView {
        match self {
            Value::String(s) => ValueView::Text(s@),
            Value::Number(n) => ValueView::Number(*n),
            Value::Date(d) => ValueView::Date(d@),
        }
    }
}

impl Clone for Value {
    fn clone(&self) -> (res: Self)
        ensures
            res@ == self@,
    {
        match self {
            Value::String(s) => Value::String(s.clone()),
            Value::Number(n) => Value::Number(*n),
            Value::Date(d) => Value::Date(d.clone()),
        }
    }
}

/// The advisory type of a field in a category's schema.
#[derive(Clone, Copy, Debug, PartialEq, Eq, Structural, Hash)]
pub enum FieldType {
    Text,
    Integer,
    DateTime,
}

/// The schema entry of one field.
#[derive(Debug)]
pub struct FieldSchema {
    pub field_name: String,
    pub field_type: FieldType,
    pub is_required: bool,
}

/// The mathematical content of a [`FieldSchema`].
pub struct FieldSchemaView {
    pub field_name: Seq<char>,
    pub field_type: FieldType,
    pub is_required: bool,
}

impl View for FieldSchema {
    type V = FieldSchemaView;

    open spec fn view(&self) -> FieldSchemaView {
        FieldSchemaView {
            field_name: self.field_name@,
            field_type: self.field_type,
            is_required: self.is_required,
        }
    }
}

impl Clone for FieldSchema {
    fn clone(&self) -> (res: Self)
        ensures
            res@ == self@,
    {
        FieldSchema {
            field_name: self.field_name.clone(),
            field_type: self.field_type,
            is_required: self.is_required,
        }
    }
}

/// The documented fields of a category, by field name.
#[derive(Debug)]
pub struct Schema {
    pub definitions: NameMap<FieldSchema>,
}

impl View for Schema {
    type V = Map<Seq<char>, FieldSchemaView>;

    open spec fn view(&self) -> Map<Seq<char>, FieldSchemaView> {
        self.definitions@.map_values(|d: FieldSchema| d@)
    }
}

impl Clone for Schema {
    fn clone(&self) -> (res: Self)
        ensures
            res@ == self@,
    {
        let definitions = self.definitions.clone();
        proof {
            self.definitions.lemma_wf();
            assert forall|i: int| 0 <= i < self.definitions.values().len() implies (
            #[trigger] self.definitions.values()[i])@ == definitions.values()[i]@ by {}
            self.definitions.lemma_same_image(&definitions, |d: FieldSchema| d@);
        }
        Schema { definitions }
    }
}

/// One element of a category, with its fields by field key.
#[derive(Debug)]
pub struct Member {
    pub id: ItemId,
    pub fields: NameMap<Value>,
}

/// The mathematical content of a [`Member`].
pub struct MemberView {
    pub id: ItemId,
    pub fields: Map<Seq<char>, ValueView>,
}

impl View for Member {
    type V = MemberView;

    open spec fn view(&self) -> MemberView {
        MemberView { id: self.id, fields: self.fields@.map_values(|v: Value| v@) }
    }
}

impl Clone for Member {
    fn clone(&self) -> (res: Self)
        ensures
            res@ == self@,
    {
        let fields = self.fields.clone();
        proof {
            self.fields.lemma_wf();
            assert forall|i: int| 0 <= i < self.fields.values().len() implies (
            #[trigger] self.fields.values()[i])@ == fields.values()[i]@ by {}
            self.fields.lemma_same_image(&fields, |v: Value| v@);
        }
        Member { id: self.id, fields }
    }
}

/// An item category: a named, ordered collection of members.
#[derive(Debug)]
pub struct Item {
    pub name: String,
    pub item_set_type: SetType,
    pub members: Vec<Member>,
    pub schema: Schema,
}

/// The mathematical content of an [`Item`].
pub struct ItemView {
    pub name: Seq<char>,
    pub item_set_type: SetType,
    pub members: Seq<MemberView>,
    pub schema: Map<Seq<char>, FieldSchemaView>,
}

impl View for Item {
    type V = ItemView;

    open spec fn view(&self) -> ItemView {
        ItemView {
            name: self.name@,
            item_set_type: self.item_set_type,
            members: self.members@.map_values(|m: Member| m@),
            schema: self.schema@,
        }
    }
}

impl Clone for Item {
    fn clone(&self) -> (res: Self)
        ensures
            res@ == self@,
    {
        let mut members: Vec<Member> = Vec::new();
        let mut i: usize = 0;
        while i < self.members.len()
            invariant
                i <= self.members@.len(),
                members@.len() == i,
                forall|j: int| 0 <= j < i ==> (#[trigger] members@[j])@ == self.members@[j]@,
            decreases self.members@.len() - i,
        {
            members.push(self.members[i].clone());
            i += 1;
        }
        let res = Item {
            name: self.name.clone(),
            item_set_type: self.item_set_type,
            members,
            schema: self.schema.clone(),
        };
        assert(res@.members =~= self@.members);
        res
    }
}

impl ItemView {
    /// Whether some member of the category has this id.
    pub open spec fn has_member(self, id: ItemId) -> bool {
        exists|i: int| 0 <= i < self.members.len() && (#[trigger] self.members[i]).id == id
    }
}

/// The position of the first member of `members` with this id; the length of
/// `members` if there is none.
pub open spec fn first_with_id(members: Seq<MemberView>, id: ItemId) -> int {
    first_where(members, |m: MemberView| m.id == id)
}

/// A category has a member with a given id exactly when the first such
/// member has a position.
pub proof fn lemma_has_member(item: ItemView, id: ItemId)
    ensures
        item.has_member(id) <==> first_with_id(item.members, id) < item.members.len(),
        0 <= first_with_id(item.members, id) <= item.members.len(),
        item.has_member(id) ==> item.members[first_with_id(item.members, id)].id == id,
{
    lemma_first_where_found(item.members, |m: MemberView| m.id == id);
}

impl Item {
    /// The position of the first member with this id, if there is one.
    pub fn position_of(&self, id: ItemId) -> (r: Option<usize>)
        ensures
            match r {
                Some(k) => k == first_with_id(self@.members, id) && k < self@.members.len()
                    && self@.members[k as int].id == id,
                None => first_with_id(self@.members, id) == self@.members.len(),
            },
            r is Some <==> self@.has_member(id),
    {
        let ghost views = self@.members;
        let mut i: usize = 0;
        while i < self.members.len()
            invariant
                i <= self.members@.len(),
                views == self@.members,
                forall|j: int| 0 <= j < i ==> (#[trigger] views[j]).id != id,
            decreases self.members@.len() - i,
        {
            if self.members[i].id == id {
                proof {
                    lemma_first_where(views, |m: MemberView| m.id == id, i as int);
                    lemma_has_member(self@, id);
                }
                return Some(i);
            }
            i += 1;
        }
        proof {
            lemma_first_where(views, |m: MemberView| m.id == id, i as int);
            lemma_has_member(self@, id);
        }
        None
    }
}

/// All item categories of a problem, by category name.
#[derive(Debug)]
pub struct ProblemData {
    pub item_categories: NameMap<Item>,
}

/// The mathematical content of a [`ProblemData`]: the categories by name, and
/// the names in the order in which the categories were added.
pub struct ProblemView {
    pub names: Seq<Seq<char>>,
    pub item_categories: Map<Seq<char>, ItemView>,
}

impl ProblemView {
    /// Every category is stored under its own name.
    pub open spec fn keyed_by_name(self) -> bool {
        forall|k: Seq<char>| #[trigger]
            self.item_categories.contains_key(k) ==> self.item_categories[k].name == k
    }
}

impl View for ProblemData {
    type V = ProblemView;

    open spec fn view(&self) -> ProblemView {
        ProblemView {
            names: self.item_categories.names(),
            item_categories: self.item_categories@.map_values(|item: Item| item@),
        }
    }
}

impl Clone for ProblemData {
    fn clone(&self) -> (res: Self)
        ensures
            res@ == self@,
    {
        let item_categories = self.item_categories.clone();
        proof {
            self.item_categories.lemma_wf();
            assert forall|i: int| 0 <= i < self.item_categories.values().len() implies (
            #[trigger] self.item_categories.values()[i])@ == item_categories.values()[i]@ by {}
            self.item_categories.lemma_same_image(&item_categories, |item: Item| item@);
        }
        ProblemData { item_categories }
    }
}

} // verus!
