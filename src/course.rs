use vstd::prelude::*;
use crate::user::copy_strings;

verus! {

/// A course of one tenant. It always has at least one instructor.
#[derive(Debug, Clone, PartialEq, Eq)]
pub struct Course {
    pub id: String,
    pub title: String,
    pub description: String,
    pub instructor_ids: Vec<String>,
    pub tenant_id: String,
    pub lessons: Vec<String>,
    pub enrolled_students: Vec<String>,
    pub created_at: u64,
    pub updated_at: u64,
    pub is_published: bool,
}

/// One lesson of a course.
#[derive(Debug, Clone, PartialEq, Eq)]
pub struct Lesson {
    pub id: String,
    pub course_id: String,
    pub title: String,
    pub content: String,
    pub lesson_type: LessonType,
    pub order: u32,
    pub quiz_id: Option<String>,
    pub created_at: u64,
    pub updated_at: u64,
}

/// Kinds of lesson.
#[derive(Debug, Clone, Copy, PartialEq, Eq, Structural)]
pub enum LessonType {
    Text,
    Video,
    Interactive,
    Assignment,
}

/// Same course, field by field (lists compared by content).
pub open spec fn same_course(a: Course, b: Course) -> bool {
    &&& a.id == b.id
    &&& a.title == b.title
    &&& a.description == b.description
    &&& a.instructor_ids@ == b.instructor_ids@
    &&& a.tenant_id == b.tenant_id
    &&& a.lessons@ == b.lessons@
    &&& a.enrolled_students@ == b.enrolled_students@
    &&& a.created_at == b.created_at
    &&& a.updated_at == b.updated_at
    &&& a.is_published == b.is_published
}

/// Whether some string of `v` reads `s`.
pub open spec fn lists(v: Seq<String>, s: Seq<char>) -> bool {
    exists|k: int| 0 <= k < v.len() && (#[trigger] v[k])@ == s
}

/// Whether `v` holds a string that reads like `s`.
pub fn contains_text(v: &Vec<String>, s: &String) -> (r: bool)
    ensures
        r == lists(v@, s@),
{
    let mut k: usize = 0;
    while k < v.len()
        invariant
            k <= v@.len(),
            forall|m: int| 0 <= m < k ==> (#[trigger] v@[m])@ != s@,
        decreases v.len() - k,
    {
        if v[k] == *s {
            return true;
        }
        k += 1;
    }
    false
}

impl Course {
    /// A field-by-field copy.
    pub fn duplicate(&self) -> (r: Course)
        ensures
            same_course(r, *self),
    {
        Course {
            id: self.id.clone(),
            title: self.title.clone(),
            description: self.description.clone(),
            instructor_ids: copy_strings(&self.instructor_ids),
            tenant_id: self.tenant_id.clone(),
            lessons: copy_strings(&self.lessons),
            enrolled_students: copy_strings(&self.enrolled_students),
            created_at: self.created_at,
            updated_at: self.updated_at,
            is_published: self.is_published,
        }
    }
}

} // verus!
