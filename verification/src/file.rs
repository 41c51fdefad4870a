use vstd::prelude::*;

use crate::constants::{ALL_TAGS, DOWN_TAG};
use crate::sorting::Named;
use crate::strings::str_eq;

verus! {

/// A SurrealQL file of the project: its name without extension, its file
/// name, its tags and its content (absent when it could not be read).
pub struct SurqlFile {
    pub name: String,
    pub full_name: String,
    pub tags: Vec<String>,
    pub content: Option<String>,
}

/// Some tag of `tags` is `t`.
pub open spec fn has_tag(tags: Seq<String>, t: Seq<char>) -> bool {
    exists|i: int| 0 <= i < tags.len() && #[trigger] tags[i]@ == t
}

/// The two lists of tags share no tag.
pub open spec fn tags_disjoint(a: Seq<String>, b: Seq<String>) -> bool {
    forall|i: int| 0 <= i < a.len() ==> !has_tag(b, #[trigger] a[i]@)
}

/// Whether a file with tags `tags` is kept by the filter `filter_tags` and the
/// exclusion list `exclude_tags`: any excluded tag rejects the file; otherwise
/// the tag `*` in the filter accepts it, else it needs a tag of the filter.
pub open spec fn spec_filter_by_tags(tags: Seq<String>, filter_tags: Seq<String>, exclude_tags: Seq<String>) -> bool {
    if exclude_tags.len() > 0 && !tags_disjoint(tags, exclude_tags) {
        false
    } else if has_tag(filter_tags, ALL_TAGS@) {
        true
    } else {
        !tags_disjoint(tags, filter_tags)
    }
}

/// Whether `t` is one of `tags`.
pub fn contains_tag(tags: &Vec<String>, t: &str) -> (r: bool)
    ensures
        r == has_tag(tags@, t@),
{
    let mut i: usize = 0;
    while i < tags.len()
        invariant
            i <= tags.len(),
            forall|k: int| 0 <= k < i ==> tags@[k]@ != t@,
        decreases tags.len() - i,
    {
        if str_eq(tags[i].as_str(), t) {
            return true;
        }
        i = i + 1;
    }
    false
}

/// Whether the two lists of tags share no tag.
pub fn is_disjoint(a: &Vec<String>, b: &Vec<String>) -> (r: bool)
    ensures
        r == tags_disjoint(a@, b@),
{
    let mut i: usize = 0;
    while i < a.len()
        invariant
            i <= a.len(),
            forall|k: int| 0 <= k < i ==> !has_tag(b@, #[trigger] a@[k]@),
        decreases a.len() - i,
    {
        if contains_tag(b, a[i].as_str()) {
            return false;
        }
        i = i + 1;
    }
    true
}

impl SurqlFile {
    /// The content of the file, if it could be read.
    pub fn get_content(&self) -> (c: Option<String>)
        ensures
            c == self.content,
    {
        match &self.content {
            Some(content) => Some(content.clone()),
            None => None,
        }
    }

    /// The file reverts a migration: it carries the `down` tag.
    pub fn is_down_file(&self) -> (r: bool)
        ensures
            r == has_tag(self.tags@, DOWN_TAG@),
    {
        contains_tag(&self.tags, DOWN_TAG)
    }

    /// Whether the file is kept by the given tag filter and exclusion list.
    pub fn filter_by_tags(&self, filter_tags: &Vec<String>, exclude_tags: &Vec<String>) -> (r: bool)
        ensures
            r == spec_filter_by_tags(self.tags@, filter_tags@, exclude_tags@),
    {
        let is_excluded = exclude_tags.len() > 0 && !is_disjoint(&self.tags, exclude_tags);
        if is_excluded {
            return false;
        }
        if contains_tag(filter_tags, ALL_TAGS) {
            return true;
        }
        !is_disjoint(&self.tags, filter_tags)
    }
}

impl Named for SurqlFile {
    open spec fn name_view(&self) -> Seq<char> {
        self.name@
    }

    fn name_str(&self) -> (s: &str) {
        self.name.as_str()
    }
}

} // verus!
