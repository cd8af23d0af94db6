//! The commands run before a session (`pre`) or in every window and pane (`pre_window`).

use vstd::prelude::*;
use crate::text::clone_strings;

verus! {

#[derive(Debug)]
pub struct Pre(pub Vec<String>);

/// `pre` may be written as a single string or as a list of strings.
#[derive(Debug)]
pub enum PreRepr {
    Str(String),
    List(Vec<String>),
}

impl DeepView for Pre {
    type V = Seq<Seq<char>>;

    open spec fn deep_view(&self) -> Seq<Seq<char>> {
        self.0.deep_view()
    }
}

impl Pre {
    /// The commands, in the order they are written.
    pub open spec fn commands(&self) -> Seq<Seq<char>> {
        self.0.deep_view()
    }

    /// The commands, in the order they run.
    pub fn iter(&self) -> (v: &Vec<String>)
        ensures
            v.deep_view() == self.commands(),
    {
        &self.0
    }

    /// Reads `pre` from its configuration form: a list as written, a string
    /// as a list of one, and an empty string as no commands at all.
    pub fn from_repr(repr: PreRepr) -> (p: Pre)
        ensures
            match repr {
                PreRepr::Str(s) => if s@.len() == 0 {
                    p.commands() == Seq::<Seq<char>>::empty()
                } else {
                    p.commands() == seq![s@]
                },
                PreRepr::List(v) => p.commands() == v.deep_view(),
            },
    {
        match repr {
            PreRepr::Str(s) => {
                if s.as_str().unicode_len() == 0 {
                    let p = Pre(Vec::new());
                    assert(p.commands() =~= Seq::<Seq<char>>::empty());
                    p
                } else {
                    let ghost sv = s@;
                    let mut v: Vec<String> = Vec::new();
                    v.push(s);
                    let p = Pre(v);
                    assert(p.commands() =~= seq![sv]);
                    p
                }
            },
            PreRepr::List(v) => Pre(v),
        }
    }
}

impl Clone for Pre {
    fn clone(&self) -> (p: Pre)
        ensures
            p.commands() == self.commands(),
    {
        Pre(clone_strings(&self.0))
    }
}

} // verus!
