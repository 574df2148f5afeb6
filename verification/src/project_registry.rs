//! Registered projects: a name, a folder and a colour.
use vstd::prelude::*;
use crate::session_store::opt_chars;
use crate::text::{chars_of, starts_with_chars, starts_with_seq, byte_len, str_byte_len};
use crate::choice::{last_max_index, pick_last_max, weights_view};

verus! {

/// A registered project.
#[derive(Debug, Clone)]
pub struct Project {
    pub id: String,
    pub name: String,
    pub path: String,
    pub color: String,
    pub created_at: String,
    pub updated_at: String,
}

/// The fields a new project is registered with.
#[derive(Debug)]
pub struct CreateProjectInput {
    pub name: String,
    pub path: String,
    pub color: Option<String>,
}

/// The fields of a project to change; `None` leaves a field as it is.
#[derive(Debug)]
pub struct UpdateProjectInput {
    pub name: Option<String>,
    pub color: Option<String>,
}

/// The colour of a project registered without one.
pub open spec fn default_color_text() -> Seq<char> {
    "#4A90E2"@
}

impl CreateProjectInput {
    /// The colour the project is registered with: the one given, or the
    /// default `#4A90E2`.
    pub fn color_or_default(&self) -> (c: String)
        ensures
            c@ == match opt_chars(self.color) {
                Some(given) => given,
                None => default_color_text(),
            },
    {
        match &self.color {
            Some(c) => c.clone(),
            None => String::from_str("#4A90E2"),
        }
    }
}

/// The weight of each project for a file path: the byte length of its
/// folder when the path begins with that folder.
pub open spec fn path_prefix_weights(file_path: Seq<char>, projects: Seq<Project>) -> Seq<Option<int>> {
    Seq::new(
        projects.len(),
        |i: int|
            if starts_with_seq(file_path, projects[i].path@) {
                Some(byte_len(projects[i].path@))
            } else {
                None
            },
    )
}

/// The project (if any) a file path belongs to: among the projects whose
/// folder begins the path, the one with the longest folder (the last of
/// equals).
pub fn find_project_for_path<'a>(projects: &'a [Project], file_path: &str) -> (r: Option<&'a Project>)
    ensures
        r == match pick_last_max(path_prefix_weights(file_path@, projects@)) {
            Some(i) => Some(&projects@[i]),
            None => None,
        },
{
    let fp = chars_of(file_path);
    let mut weights: Vec<Option<usize>> = Vec::new();
    let mut i: usize = 0;
    while i < projects.len()
        invariant
            i <= projects@.len(),
            fp@ == file_path@,
            weights_view(weights@) =~= path_prefix_weights(file_path@, projects@).take(i as int),
        decreases projects@.len() - i,
    {
        let pc = chars_of(projects[i].path.as_str());
        let ghost before = weights@;
        if starts_with_chars(fp.as_slice(), pc.as_slice()) {
            weights.push(Some(str_byte_len(projects[i].path.as_str())));
        } else {
            weights.push(None);
        }
        assert(weights@ == before.push(weights@.last()));
        assert(weights_view(weights@) =~= weights_view(before).push(path_prefix_weights(file_path@, projects@)[i as int]));
        assert(path_prefix_weights(file_path@, projects@).take(i + 1) =~= path_prefix_weights(file_path@, projects@).take(i as int).push(path_prefix_weights(file_path@, projects@)[i as int]));
        i = i + 1;
    }
    assert(path_prefix_weights(file_path@, projects@).take(projects@.len() as int) =~= path_prefix_weights(
        file_path@,
        projects@,
    ));
    match last_max_index(weights.as_slice()) {
        Some(k) => Some(&projects[k]),
        None => None,
    }
}

} // verus!
