//! Courses and course groups: their creation requests and list items.

use vstd::prelude::*;

verus! {

#[derive(Debug, Clone)]
pub struct CreateCourse {
    pub title: String,
    pub code: Option<String>,
    pub institution: Option<String>,
    pub description: Option<String>,
}

/// A course in the list, with how many terms it has had and its latest
/// semester.
#[derive(Debug, Clone)]
pub struct CourseListItem {
    pub id: String,
    pub title: String,
    pub code: Option<String>,
    pub institution: Option<String>,
    pub description: String,
    pub iteration_count: i64,
    pub latest_semester: Option<String>,
}

#[derive(Debug, Clone)]
pub struct CreateCourseGroup {
    pub title: String,
    pub code: Option<String>,
    pub institution: Option<String>,
    pub description: Option<String>,
}

} // verus!
