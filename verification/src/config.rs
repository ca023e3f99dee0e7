//! The project manifest a publisher writes for an application.
//!
//! This is the caller-supplied description of the app being published,
//! loaded from a configuration file by the surrounding program; nothing
//! here reads files. The fields feed the publishing layer as plain text.

use vstd::prelude::*;

verus! {

/// A publisher's description of one application.
#[derive(Debug, Clone)]
pub struct Manifest {
    /// App id, must be unique.
    pub id: String,
    /// Application display name.
    pub name: String,
    /// App description.
    pub description: Option<String>,
    /// Long form app description (with markdown).
    pub summary: Option<String>,
    /// Repo URL.
    pub repository: Option<String>,
    /// Public project website.
    pub url: Option<String>,
    /// SPDX license code.
    pub license: Option<String>,
    /// App icon.
    pub icon: Option<String>,
    /// App preview images.
    pub images: Vec<String>,
    /// Tags (category / purpose).
    pub tags: Vec<String>,
}

/// Borrowing an optional string, with the empty string for absence.
pub trait AsStrOrEmpty {
    /// What the borrowed text reads.
    spec fn spec_str_or_empty(&self) -> Seq<char>;

    /// The borrowed text, or the empty string when absent.
    fn as_str_or_empty(&self) -> (r: &str)
        ensures
            r@ == self.spec_str_or_empty(),
    ;
}

impl AsStrOrEmpty for Option<String> {
    open spec fn spec_str_or_empty(&self) -> Seq<char> {
        match self {
            Some(s) => s@,
            None => Seq::empty(),
        }
    }

    fn as_str_or_empty(&self) -> (r: &str) {
        match self {
            Some(s) => s.as_str(),
            None => {
                let r = "";
                proof {
                    reveal_strlit("");
                    assert(r@ =~= Seq::<char>::empty());
                }
                r
            },
        }
    }
}

} // verus!
