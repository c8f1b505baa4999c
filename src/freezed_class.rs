//! A class seen only through its constructors, with the two questions the
//! generator asks of them.
use vstd::prelude::*;
use crate::dart_types::{Annotation, CtorView, DartType, RedirectedConstructor, ctor_views};
use crate::text::text_eq;

verus! {

/// A named argument of a constructor: its annotations, `required` flag, type,
/// name and default text.
#[derive(Debug, PartialEq, Eq)]
pub struct NamedArgument {
    pub annotations: Vec<Annotation>,
    pub is_required: bool,
    pub argument_type: DartType,
    pub name: String,
    pub default: Option<String>,
}

/// A class by its name and all of its constructors, markers included.
#[derive(Debug, PartialEq, Eq)]
pub struct FreezedClass2 {
    pub name: String,
    pub redirecting_constructors: Vec<RedirectedConstructor>,
}

/// The first constructor marking the unnamed constructor, if any.
pub open spec fn first_unnamed(cs: Seq<CtorView>) -> Option<CtorView>
    decreases cs.len(),
{
    if cs.len() == 0 {
        None
    } else if cs[0].class_name == "_"@ {
        Some(cs[0])
    } else {
        first_unnamed(cs.drop_first())
    }
}

impl FreezedClass2 {
    /// Whether one of the constructors marks a `fromJson` factory.
    pub fn has_json(&self) -> (r: bool)
        ensures
            r == exists|i: int| 0 <= i < self.redirecting_constructors@.len()
                && #[trigger] self.redirecting_constructors@[i].class_name@ == "fromJson"@,
    {
        let mut i: usize = 0;
        while i < self.redirecting_constructors.len()
            invariant
                i <= self.redirecting_constructors@.len(),
                forall|j: int| 0 <= j < i ==> #[trigger] self.redirecting_constructors@[j].class_name@ != "fromJson"@,
            decreases self.redirecting_constructors.len() - i,
        {
            if text_eq(self.redirecting_constructors[i].class_name.as_str(), "fromJson") {
                return true;
            }
            i += 1;
        }
        false
    }

    /// Whether the first constructor marking the unnamed constructor is `const`.
    pub fn has_const_constructor(&self) -> (r: bool)
        ensures
            r == match first_unnamed(ctor_views(self.redirecting_constructors@)) {
                Some(c) => c.is_const,
                None => false,
            },
    {
        let ghost cs = ctor_views(self.redirecting_constructors@);
        let mut i: usize = 0;
        assert(cs.subrange(0, cs.len() as int) =~= cs);
        while i < self.redirecting_constructors.len()
            invariant
                i <= self.redirecting_constructors@.len(),
                cs == ctor_views(self.redirecting_constructors@),
                first_unnamed(cs) == first_unnamed(cs.subrange(i as int, cs.len() as int)),
            decreases self.redirecting_constructors.len() - i,
        {
            proof {
                assert(cs.subrange(i as int, cs.len() as int).drop_first() =~= cs.subrange(i + 1, cs.len() as int));
            }
            let c = &self.redirecting_constructors[i];
            if text_eq(c.class_name.as_str(), "_") {
                return c.is_const;
            }
            i += 1;
        }
        false
    }
}

} // verus!
