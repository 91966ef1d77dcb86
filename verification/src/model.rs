//! The records that flow through the pipeline: a course, the five kinds of
//! material fetched for it, one fetched list per kind, and the assembled record
//! that a renderer receives.

use vstd::prelude::*;

verus! {

/// One of the five independent kinds of material fetched for a course.
#[derive(Clone, Copy, Debug, PartialEq, Eq, Structural)]
pub enum SubResourceCategory {
    Announcements,
    CourseWork,
    Materials,
    Teachers,
    Topics,
}

impl SubResourceCategory {
    /// The position of the category in the fixed order in which the five are listed.
    pub open spec fn rank(self) -> nat {
        match self {
            SubResourceCategory::Announcements => 0,
            SubResourceCategory::CourseWork => 1,
            SubResourceCategory::Materials => 2,
            SubResourceCategory::Teachers => 3,
            SubResourceCategory::Topics => 4,
        }
    }

    /// The category at a position, if the position is one of the five.
    pub open spec fn of_rank(rank: nat) -> Option<SubResourceCategory> {
        if rank == 0 {
            Some(SubResourceCategory::Announcements)
        } else if rank == 1 {
            Some(SubResourceCategory::CourseWork)
        } else if rank == 2 {
            Some(SubResourceCategory::Materials)
        } else if rank == 3 {
            Some(SubResourceCategory::Teachers)
        } else if rank == 4 {
            Some(SubResourceCategory::Topics)
        } else {
            None
        }
    }

    /// The five categories in their fixed order.
    pub open spec fn every() -> Seq<SubResourceCategory> {
        seq![
            SubResourceCategory::Announcements,
            SubResourceCategory::CourseWork,
            SubResourceCategory::Materials,
            SubResourceCategory::Teachers,
            SubResourceCategory::Topics,
        ]
    }

    /// The name under which a renderer finds the category's items.
    pub open spec fn label(self) -> Seq<char> {
        match self {
            SubResourceCategory::Announcements => "course_announcements"@,
            SubResourceCategory::CourseWork => "coursework"@,
            SubResourceCategory::Materials => "course_materials"@,
            SubResourceCategory::Teachers => "teachers"@,
            SubResourceCategory::Topics => "topics"@,
        }
    }

    /// The category's position, from 0 to 4.
    pub fn index(self) -> (i: usize)
        ensures
            i == self.rank(),
            i < 5,
    {
        match self {
            SubResourceCategory::Announcements => 0,
            SubResourceCategory::CourseWork => 1,
            SubResourceCategory::Materials => 2,
            SubResourceCategory::Teachers => 3,
            SubResourceCategory::Topics => 4,
        }
    }

    /// The category at position `i`; `None` when `i` is 5 or more.
    pub fn from_index(i: usize) -> (c: Option<SubResourceCategory>)
        ensures
            c == Self::of_rank(i as nat),
            c is Some <==> i < 5,
    {
        if i == 0 {
            Some(SubResourceCategory::Announcements)
        } else if i == 1 {
            Some(SubResourceCategory::CourseWork)
        } else if i == 2 {
            Some(SubResourceCategory::Materials)
        } else if i == 3 {
            Some(SubResourceCategory::Teachers)
        } else if i == 4 {
            Some(SubResourceCategory::Topics)
        } else {
            None
        }
    }

    /// The five categories in their fixed order.
    pub fn all() -> (v: Vec<SubResourceCategory>)
        ensures
            v@ == Self::every(),
    {
        let mut v: Vec<SubResourceCategory> = Vec::new();
        v.push(SubResourceCategory::Announcements);
        v.push(SubResourceCategory::CourseWork);
        v.push(SubResourceCategory::Materials);
        v.push(SubResourceCategory::Teachers);
        v.push(SubResourceCategory::Topics);
        v
    }

    /// The name under which a renderer finds the category's items.
    pub fn key(self) -> (s: &'static str)
        ensures
            s@ == self.label(),
    {
        match self {
            SubResourceCategory::Announcements => "course_announcements",
            SubResourceCategory::CourseWork => "coursework",
            SubResourceCategory::Materials => "course_materials",
            SubResourceCategory::Teachers => "teachers",
            SubResourceCategory::Topics => "topics",
        }
    }

    /// Positions and categories correspond one to one: every position below 5
    /// names a category whose position it is, and every category is found again
    /// from its position.
    pub proof fn lemma_rank_round_trip()
        ensures
            forall|c: SubResourceCategory| #[trigger] Self::of_rank(c.rank()) == Some(c),
            forall|r: nat| r < 5 ==> (#[trigger] Self::of_rank(r)) is Some && Self::of_rank(r).unwrap().rank() == r,
            forall|c: SubResourceCategory| 0 <= c.rank() < 5 && Self::every()[c.rank() as int] == c,
            Self::every().len() == 5,
    {
    }
}

/// The name under which a renderer finds a course's display name.
pub const NAME_KEY: &'static str = "name";

/// The name under which a renderer finds the list of courses.
pub const COURSES_KEY: &'static str = "courses";

/// A course: the top-level entity that is listed once and then processed.
#[derive(Debug, PartialEq, Eq)]
pub struct Parent {
    id: String,
    name: String,
}

/// What a `Parent` holds, as plain sequences of characters.
pub struct ParentView {
    pub id: Seq<char>,
    pub name: Seq<char>,
}

impl View for Parent {
    type V = ParentView;

    closed spec fn view(&self) -> ParentView {
        ParentView { id: self.id@, name: self.name@ }
    }
}

impl Parent {
    /// A course with the given identifier and display name.
    pub fn new(id: String, name: String) -> (p: Parent)
        ensures
            p@ == (ParentView { id: id@, name: name@ }),
    {
        Parent { id, name }
    }

    /// A course from one entry of the listing, whose fields may be missing.
    ///
    /// An entry without an identifier cannot be processed and gives `None`;
    /// a missing name is the empty name.
    pub fn from_listing(id: Option<String>, name: Option<String>) -> (p: Option<Parent>)
        ensures
            id is None ==> p is None,
            id is Some ==> p is Some && p.unwrap()@ == (ParentView {
                id: id.unwrap()@,
                name: if name is Some {
                    name.unwrap()@
                } else {
                    Seq::<char>::empty()
                },
            }),
    {
        match id {
            None => None,
            Some(id) => {
                let name = match name {
                    Some(n) => n,
                    None => String::new(),
                };
                Some(Parent { id, name })
            },
        }
    }

    /// The course's identifier.
    pub fn id(&self) -> (s: &String)
        ensures
            s@ == self@.id,
    {
        &self.id
    }

    /// The course's display name.
    pub fn name(&self) -> (s: &String)
        ensures
            s@ == self@.name,
    {
        &self.name
    }

    /// Whether two courses have the same identifier and the same name.
    pub fn same_as(&self, other: &Parent) -> (b: bool)
        ensures
            b == (self@ == other@),
    {
        self.id == other.id && self.name == other.name
    }
}

impl Clone for Parent {
    fn clone(&self) -> (p: Parent)
        ensures
            p@ == self@,
    {
        Parent { id: self.id.clone(), name: self.name.clone() }
    }
}

/// What a `SubResourceCollection` holds: its category, its items in order,
/// and whether the fetch that produced it succeeded.
#[verifier::ext_equal]
pub struct CollectionView<T> {
    pub category: SubResourceCategory,
    pub items: Seq<T>,
    pub present: bool,
}

impl<T> CollectionView<T> {
    /// The collection of a fetch that succeeded with `items`.
    pub open spec fn filled(category: SubResourceCategory, items: Seq<T>) -> CollectionView<T> {
        CollectionView { category, items, present: true }
    }

    /// The designated value for a fetch that failed: no items, not present.
    pub open spec fn absent(category: SubResourceCategory) -> CollectionView<T> {
        CollectionView { category, items: Seq::<T>::empty(), present: false }
    }

    /// A collection that is not present holds no items.
    pub open spec fn wf(self) -> bool {
        !self.present ==> self.items.len() == 0
    }
}

/// The items fetched for one category of one course.
///
/// A collection whose fetch failed is not present and holds no items; the
/// items of a present collection are in the order in which they were handed in.
#[derive(Debug)]
pub struct SubResourceCollection<T> {
    category: SubResourceCategory,
    items: Vec<T>,
    present: bool,
}

impl<T> View for SubResourceCollection<T> {
    type V = CollectionView<T>;

    closed spec fn view(&self) -> CollectionView<T> {
        CollectionView { category: self.category, items: self.items@, present: self.present }
    }
}

impl<T> SubResourceCollection<T> {
    #[verifier::type_invariant]
    spec fn inv(&self) -> bool {
        !self.present ==> self.items@.len() == 0
    }

    /// The collection of a fetch that succeeded with `items`, kept in their order.
    pub fn filled(category: SubResourceCategory, items: Vec<T>) -> (c: SubResourceCollection<T>)
        ensures
            c@ == CollectionView::filled(category, items@),
    {
        SubResourceCollection { category, items, present: true }
    }

    /// The collection that stands for a failed fetch.
    pub fn absent(category: SubResourceCategory) -> (c: SubResourceCollection<T>)
        ensures
            c@ == CollectionView::<T>::absent(category),
    {
        SubResourceCollection { category, items: Vec::new(), present: false }
    }

    /// The category the collection belongs to.
    pub fn category(&self) -> (c: SubResourceCategory)
        ensures
            c == self@.category,
    {
        self.category
    }

    /// Whether the fetch succeeded. A collection that is not present is empty.
    pub fn is_present(&self) -> (b: bool)
        ensures
            b == self@.present,
            self@.wf(),
    {
        proof {
            use_type_invariant(self);
        }
        self.present
    }

    /// The items, in the order in which they were fetched.
    pub fn items(&self) -> (v: &Vec<T>)
        ensures
            v@ == self@.items,
            self@.wf(),
    {
        proof {
            use_type_invariant(self);
        }
        &self.items
    }

    /// The number of items.
    pub fn len(&self) -> (n: usize)
        ensures
            n == self@.items.len(),
            !self@.present ==> n == 0,
    {
        proof {
            use_type_invariant(self);
        }
        self.items.len()
    }

    /// Gives up the collection for its items.
    pub fn into_items(self) -> (v: Vec<T>)
        ensures
            v@ == self@.items,
            self@.wf(),
    {
        proof {
            use_type_invariant(&self);
        }
        self.items
    }
}

/// What an `AggregatedRecord` holds: the course and one collection for each
/// of the five categories.
#[verifier::ext_equal]
pub struct RecordView<T> {
    pub parent: ParentView,
    pub announcements: CollectionView<T>,
    pub course_work: CollectionView<T>,
    pub materials: CollectionView<T>,
    pub teachers: CollectionView<T>,
    pub topics: CollectionView<T>,
}

impl<T> RecordView<T> {
    /// The collection that the record holds for a category.
    pub open spec fn slot(self, category: SubResourceCategory) -> CollectionView<T> {
        match category {
            SubResourceCategory::Announcements => self.announcements,
            SubResourceCategory::CourseWork => self.course_work,
            SubResourceCategory::Materials => self.materials,
            SubResourceCategory::Teachers => self.teachers,
            SubResourceCategory::Topics => self.topics,
        }
    }

    /// Every category has its own collection, and each collection is well formed.
    pub open spec fn wf(self) -> bool {
        forall|c: SubResourceCategory| #[trigger] self.slot(c).category == c && self.slot(c).wf()
    }

    /// No collection of the record stands for a failed fetch.
    pub open spec fn complete(self) -> bool {
        forall|c: SubResourceCategory| (#[trigger] self.slot(c)).present
    }
}

/// The render-ready record of one course: the course itself and exactly one
/// collection for each of the five categories, some of them possibly empty.
#[derive(Debug)]
pub struct AggregatedRecord<T> {
    parent: Parent,
    announcements: SubResourceCollection<T>,
    course_work: SubResourceCollection<T>,
    materials: SubResourceCollection<T>,
    teachers: SubResourceCollection<T>,
    topics: SubResourceCollection<T>,
}

impl<T> View for AggregatedRecord<T> {
    type V = RecordView<T>;

    closed spec fn view(&self) -> RecordView<T> {
        RecordView {
            parent: self.parent@,
            announcements: self.announcements@,
            course_work: self.course_work@,
            materials: self.materials@,
            teachers: self.teachers@,
            topics: self.topics@,
        }
    }
}

impl<T> AggregatedRecord<T> {
    #[verifier::type_invariant]
    spec fn inv(&self) -> bool {
        &&& self.announcements@.category == SubResourceCategory::Announcements
        &&& self.course_work@.category == SubResourceCategory::CourseWork
        &&& self.materials@.category == SubResourceCategory::Materials
        &&& self.teachers@.category == SubResourceCategory::Teachers
        &&& self.topics@.category == SubResourceCategory::Topics
        &&& self.announcements@.wf()
        &&& self.course_work@.wf()
        &&& self.materials@.wf()
        &&& self.teachers@.wf()
        &&& self.topics@.wf()
    }

    /// The record of `parent` with the five given collections, each of which
    /// must belong to the category of the place it is handed in at.
    pub(crate) fn from_slots(
        parent: Parent,
        announcements: SubResourceCollection<T>,
        course_work: SubResourceCollection<T>,
        materials: SubResourceCollection<T>,
        teachers: SubResourceCollection<T>,
        topics: SubResourceCollection<T>,
    ) -> (r: AggregatedRecord<T>)
        requires
            announcements@.category == SubResourceCategory::Announcements,
            course_work@.category == SubResourceCategory::CourseWork,
            materials@.category == SubResourceCategory::Materials,
            teachers@.category == SubResourceCategory::Teachers,
            topics@.category == SubResourceCategory::Topics,
        ensures
            r@ == (RecordView {
                parent: parent@,
                announcements: announcements@,
                course_work: course_work@,
                materials: materials@,
                teachers: teachers@,
                topics: topics@,
            }),
            r@.wf(),
    {
        proof {
            use_type_invariant(&announcements);
            use_type_invariant(&course_work);
            use_type_invariant(&materials);
            use_type_invariant(&teachers);
            use_type_invariant(&topics);
        }
        AggregatedRecord { parent, announcements, course_work, materials, teachers, topics }
    }

    /// The course the record belongs to.
    pub fn parent(&self) -> (p: &Parent)
        ensures
            p@ == self@.parent,
    {
        &self.parent
    }

    /// The collection that the record holds for `category`.
    pub fn collection(&self, category: SubResourceCategory) -> (c: &SubResourceCollection<T>)
        ensures
            c@ == self@.slot(category),
            c@.category == category,
            self@.wf(),
    {
        proof {
            use_type_invariant(self);
        }
        match category {
            SubResourceCategory::Announcements => &self.announcements,
            SubResourceCategory::CourseWork => &self.course_work,
            SubResourceCategory::Materials => &self.materials,
            SubResourceCategory::Teachers => &self.teachers,
            SubResourceCategory::Topics => &self.topics,
        }
    }

    /// What a renderer is handed for the five categories: each category's key
    /// with the category's items, in the fixed order of the categories. A
    /// category whose fetch failed is handed over as an empty list, so that no
    /// key is ever missing.
    pub fn sections(&self) -> (list: Vec<(&'static str, &Vec<T>)>)
        ensures
            list@.len() == 5,
            forall|i: int|
                0 <= i < 5 ==> {
                    &&& (#[trigger] list@[i]).0@ == SubResourceCategory::every()[i].label()
                    &&& list@[i].1@ == self@.slot(SubResourceCategory::every()[i]).items
                },
            self@.wf(),
    {
        proof {
            use_type_invariant(self);
        }
        let mut list: Vec<(&'static str, &Vec<T>)> = Vec::new();
        list.push((SubResourceCategory::Announcements.key(), self.announcements.items()));
        list.push((SubResourceCategory::CourseWork.key(), self.course_work.items()));
        list.push((SubResourceCategory::Materials.key(), self.materials.items()));
        list.push((SubResourceCategory::Teachers.key(), self.teachers.items()));
        list.push((SubResourceCategory::Topics.key(), self.topics.items()));
        list
    }

    /// Whether every category was fetched successfully.
    pub fn is_complete(&self) -> (b: bool)
        ensures
            b == self@.complete(),
    {
        let b = self.announcements.is_present() && self.course_work.is_present()
            && self.materials.is_present() && self.teachers.is_present()
            && self.topics.is_present();
        proof {
            if !b {
                // One of the five is not present, so not all are.
                let v = self@;
                assert(!v.slot(SubResourceCategory::Announcements).present || !v.slot(
                    SubResourceCategory::CourseWork,
                ).present || !v.slot(SubResourceCategory::Materials).present || !v.slot(
                    SubResourceCategory::Teachers,
                ).present || !v.slot(SubResourceCategory::Topics).present);
            }
        }
        b
    }
}

} // verus!
