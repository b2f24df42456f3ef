//! What the course server is asked for, and what it answers with.

use vstd::prelude::*;
use vstd::string::StringExecFns;
use crate::text::{decimal, push_decimal, same_text};

verus! {

/// The four things that the course server is asked for.
pub enum ApiEndpoint {
    /// The courses of the user.
    CourseList,
    /// The assignment groups of a course.
    AssignmentGroupList(i32),
    /// The assignments of a group of a course: the course, then the group.
    AssignmentList(i32, i32),
    /// One assignment of a course: the course, then the assignment.
    Assignment(i32, i32),
}

/// A course, as the server describes it.
#[derive(Debug, PartialEq, Eq)]
pub struct Course {
    pub id: i32,
    pub name: String,
}

/// An assignment, as the server describes it.
#[derive(Debug, PartialEq, Eq)]
pub struct Assignment {
    pub id: i32,
    pub name: String,
}

/// What the server tells of one assignment: its description, which is HTML.
#[derive(Debug, PartialEq, Eq)]
pub struct AssignmentData {
    pub description: String,
}

/// A group of assignments of a course.
#[derive(Debug, PartialEq, Eq)]
pub struct AssignmentGroup {
    pub id: i32,
    pub name: String,
}

/// The address under which every request starts.
pub open spec fn api_root() -> Seq<char> {
    "https://canvas.cse.taylor.edu/api/v1"@
}

/// The address of an endpoint.
pub open spec fn endpoint_url(endpoint: ApiEndpoint) -> Seq<char> {
    match endpoint {
        ApiEndpoint::CourseList => api_root() + "/courses"@,
        ApiEndpoint::AssignmentGroupList(course) => api_root() + "/courses/"@ + decimal(
            course as int,
        ) + "/assignment_groups"@,
        ApiEndpoint::AssignmentList(course, group) => api_root() + "/courses/"@ + decimal(
            course as int,
        ) + "/assignment_groups/"@ + decimal(group as int) + "/assignments"@,
        ApiEndpoint::Assignment(course, assignment) => api_root() + "/courses/"@ + decimal(
            course as int,
        ) + "/assignments/"@ + decimal(assignment as int),
    }
}

impl ApiEndpoint {
    /// The address of an endpoint.
    pub fn get_url(endpoint: ApiEndpoint) -> (url: String)
        ensures
            url@ == endpoint_url(endpoint),
    {
        let mut url = String::from_str("https://canvas.cse.taylor.edu/api/v1");
        match endpoint {
            ApiEndpoint::CourseList => {
                url.append("/courses");
            },
            ApiEndpoint::AssignmentGroupList(course) => {
                url.append("/courses/");
                push_decimal(&mut url, course);
                url.append("/assignment_groups");
            },
            ApiEndpoint::AssignmentList(course, group) => {
                url.append("/courses/");
                push_decimal(&mut url, course);
                url.append("/assignment_groups/");
                push_decimal(&mut url, group);
                url.append("/assignments");
            },
            ApiEndpoint::Assignment(course, assignment) => {
                url.append("/courses/");
                push_decimal(&mut url, course);
                url.append("/assignments/");
                push_decimal(&mut url, assignment);
            },
        }
        assert(url@ =~= endpoint_url(endpoint));
        url
    }
}

/// The name of the group that holds the labs.
pub open spec fn lab_group_name() -> Seq<char> {
    "Labs & Homework"@
}

/// Whether the group at `at` is the first one that holds the labs.
pub open spec fn is_lab_group(groups: Seq<AssignmentGroup>, at: int) -> bool {
    &&& 0 <= at < groups.len()
    &&& groups[at].name@ == lab_group_name()
    &&& forall|before: int|
        0 <= before < at ==> (#[trigger] groups[before]).name@ != lab_group_name()
}

impl AssignmentGroup {
    /// The id of the first group that holds the labs, if there is one.
    pub fn get_lab_group(groups: &Vec<AssignmentGroup>) -> (found: Option<i32>)
        ensures
            match found {
                Some(id) => exists|at: int| is_lab_group(groups@, at) && groups[at].id == id,
                None => forall|at: int|
                    0 <= at < groups.len() ==> (#[trigger] groups[at]).name@ != lab_group_name(),
            },
    {
        let mut at: usize = 0;
        while at < groups.len()
            invariant
                at <= groups.len(),
                forall|before: int|
                    0 <= before < at ==> (#[trigger] groups[before]).name@ != lab_group_name(),
            decreases groups.len() - at,
        {
            if same_text(groups[at].name.as_str(), "Labs & Homework") {
                assert(is_lab_group(groups@, at as int));
                return Some(groups[at].id);
            }
            at += 1;
        }
        None
    }
}

} // verus!
