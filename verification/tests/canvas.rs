use lab_notes::canvas::{ApiEndpoint, AssignmentGroup};

#[test]
fn urls_of_the_four_endpoints() {
    assert_eq!(
        ApiEndpoint::get_url(ApiEndpoint::CourseList),
        "https://canvas.cse.taylor.edu/api/v1/courses"
    );
    assert_eq!(
        ApiEndpoint::get_url(ApiEndpoint::AssignmentGroupList(42)),
        "https://canvas.cse.taylor.edu/api/v1/courses/42/assignment_groups"
    );
    assert_eq!(
        ApiEndpoint::get_url(ApiEndpoint::AssignmentList(7, 1900)),
        "https://canvas.cse.taylor.edu/api/v1/courses/7/assignment_groups/1900/assignments"
    );
    assert_eq!(
        ApiEndpoint::get_url(ApiEndpoint::Assignment(10, 305)),
        "https://canvas.cse.taylor.edu/api/v1/courses/10/assignments/305"
    );
}

#[test]
fn url_of_extreme_ids() {
    assert_eq!(
        ApiEndpoint::get_url(ApiEndpoint::Assignment(i32::MIN, i32::MAX)),
        format!("https://canvas.cse.taylor.edu/api/v1/courses/{}/assignments/{}", i32::MIN, i32::MAX)
    );
    assert_eq!(
        ApiEndpoint::get_url(ApiEndpoint::AssignmentGroupList(0)),
        "https://canvas.cse.taylor.edu/api/v1/courses/0/assignment_groups"
    );
}

fn group(id: i32, name: &str) -> AssignmentGroup {
    AssignmentGroup { id, name: name.to_string() }
}

#[test]
fn first_lab_group_is_found() {
    let groups = vec![
        group(1, "Exams"),
        group(2, "Labs & Homework"),
        group(3, "Labs & Homework"),
    ];
    assert_eq!(AssignmentGroup::get_lab_group(&groups), Some(2));
}

#[test]
fn no_lab_group() {
    let groups = vec![group(1, "Exams"), group(2, "labs & homework"), group(3, "Labs & Homework ")];
    assert_eq!(AssignmentGroup::get_lab_group(&groups), None);
    assert_eq!(AssignmentGroup::get_lab_group(&Vec::new()), None);
}
