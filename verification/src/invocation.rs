//! Invocations of the command line, as far as they are parsed.

use vstd::prelude::*;

use crate::text::{copy_strings, opt_view, same, views};

verus! {

/// A parsed invocation.
pub struct ParsedInvocation {
    pub command: Vec<String>,
    /// The values of each option that was given.
    pub options: Vec<(String, Vec<String>)>,
    pub positionals: Vec<String>,
}

/// What a [`ParsedInvocation`] stands for.
#[verifier::ext_equal]
pub ghost struct InvocationView {
    pub command: Seq<Seq<char>>,
    pub options: Seq<(Seq<char>, Seq<Seq<char>>)>,
    pub positionals: Seq<Seq<char>>,
}

/// The views of options.
pub open spec fn options_view(s: Seq<(String, Vec<String>)>) -> Seq<(Seq<char>, Seq<Seq<char>>)> {
    Seq::new(s.len(), |i: int| (s[i].0@, views(s[i].1@)))
}

impl View for ParsedInvocation {
    type V = InvocationView;

    open spec fn view(&self) -> InvocationView {
        InvocationView {
            command: views(self.command@),
            options: options_view(self.options@),
            positionals: views(self.positionals@),
        }
    }
}

/// The values of an option among options.
pub open spec fn values_of(options: Seq<(Seq<char>, Seq<Seq<char>>)>, name: Seq<char>) -> Option<Seq<Seq<char>>>
    decreases options.len(),
{
    if options.len() == 0 {
        None
    } else if options[0].0 == name {
        Some(options[0].1)
    } else {
        values_of(options.drop_first(), name)
    }
}

impl InvocationView {
    /// The values of an option.
    pub open spec fn values(self, name: Seq<char>) -> Option<Seq<Seq<char>>> {
        values_of(self.options, name)
    }

    /// The value of an option that has one.
    pub open spec fn value(self, name: Seq<char>) -> Option<Seq<char>> {
        match self.values(name) {
            Some(values) => if values.len() > 0 {
                Some(values[0])
            } else {
                None
            },
            None => None,
        }
    }

    /// Whether an option was given.
    pub open spec fn has(self, name: Seq<char>) -> bool {
        self.values(name) is Some
    }
}

impl ParsedInvocation {
    fn option_values(&self, name: &str) -> (r: Option<&Vec<String>>)
        ensures
            match r {
                Some(values) => self@.values(name@) == Some(views(values@)),
                None => self@.values(name@) is None,
            },
    {
        let ghost all = self@.options;
        let mut i: usize = 0;
        assert(all.skip(0) =~= all);
        while i < self.options.len()
            invariant
                i <= self.options@.len(),
                all == self@.options,
                values_of(all, name@) == values_of(all.skip(i as int), name@),
            decreases self.options.len() - i,
        {
            proof {
                assert(all.skip(i as int)[0] == all[i as int]);
                assert(all.skip(i as int).drop_first() =~= all.skip(i + 1));
            }
            if same(self.options[i].0.as_str(), name) {
                return Some(&self.options[i].1);
            }
            i += 1;
        }
        None
    }

    /// The values of an option.
    pub fn option_strings(&self, name: &str) -> (r: Option<Vec<String>>)
        ensures
            match r {
                Some(values) => self@.values(name@) == Some(views(values@)),
                None => self@.values(name@) is None,
            },
    {
        match self.option_values(name) {
            Some(values) => Some(copy_strings(values)),
            None => None,
        }
    }

    /// The value of an option that has one.
    pub fn option_string(&self, name: &str) -> (r: Option<String>)
        ensures
            opt_view(r) == self@.value(name@),
    {
        match self.option_values(name) {
            Some(values) => if values.len() > 0 {
                assert(views(values@)[0] == values@[0]@);
                Some(values[0].clone())
            } else {
                None
            },
            None => None,
        }
    }

    /// Whether an option was given.
    pub fn has_option(&self, name: &str) -> (r: bool)
        ensures
            r == self@.has(name@),
    {
        self.option_values(name).is_some()
    }
}

} // verus!
