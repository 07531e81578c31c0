//! Option values that loaders can expose: enumerations with a fixed set of
//! choices.

use std::sync::Arc;

use vstd::prelude::*;

use crate::error::Error;
use crate::loader::loader_rvm::str_eq;

verus! {

/// The given options with every repeated entry removed: each entry keeps its
/// first occurrence's place.
pub open spec fn dedup_first(s: Seq<Seq<char>>) -> Seq<Seq<char>>
    decreases s.len(),
{
    if s.len() == 0 {
        Seq::empty()
    } else {
        {
            let d = dedup_first(s.drop_last());
            if d.contains(s.last()) {
                d
            } else {
                d.push(s.last())
            }
        }
    }
}

/// The descriptor for an enum option: the available choices, each occurring
/// once.
#[derive(Debug)]
pub struct EnumDescriptor {
    options: Vec<String>,
}

impl EnumDescriptor {
    /// The available options.
    pub closed spec fn spec_options(&self) -> Seq<Seq<char>> {
        Seq::new(self.options@.len(), |i: int| self.options@[i]@)
    }

    /// Builds a descriptor from the given options, keeping the first
    /// occurrence of each distinct option.
    pub fn from_iter(options: Vec<String>) -> (r: Self)
        ensures
            r.spec_options() == dedup_first(
                Seq::new(options@.len(), |i: int| options@[i]@),
            ),
    {
        let ghost input = Seq::new(options@.len(), |i: int| options@[i]@);
        let mut distinct: Vec<String> = Vec::new();
        let mut i: usize = 0;
        while i < options.len()
            invariant
                input == Seq::new(options@.len(), |k: int| options@[k]@),
                0 <= i <= options@.len(),
                Seq::new(distinct@.len(), |k: int| distinct@[k]@) == dedup_first(
                    input.take(i as int),
                ),
            decreases options@.len() - i,
        {
            let ghost before = Seq::new(distinct@.len(), |k: int| distinct@[k]@);
            let mut found = false;
            let mut k: usize = 0;
            while k < distinct.len()
                invariant
                    0 <= k <= distinct@.len(),
                    i < options@.len(),
                    before == Seq::new(distinct@.len(), |k2: int| distinct@[k2]@),
                    found == exists|j: int|
                        0 <= j < k && #[trigger] distinct@[j]@ == options@[i as int]@,
                decreases distinct@.len() - k,
            {
                if str_eq(distinct[k].as_str(), options[i].as_str()) {
                    found = true;
                }
                k = k + 1;
            }
            proof {
                assert(found == before.contains(options@[i as int]@)) by {
                    if found {
                        let j = choose|j: int|
                            0 <= j < distinct@.len() && #[trigger] distinct@[j]@ == options@[i as int]@;
                        assert(before[j] == options@[i as int]@);
                    } else {
                        if before.contains(options@[i as int]@) {
                            let j = choose|j: int|
                                0 <= j < before.len() && #[trigger] before[j] == options@[i as int]@;
                            assert(distinct@[j]@ == options@[i as int]@);
                        }
                    }
                }
                assert(input.take(i + 1).drop_last() =~= input.take(i as int));
                assert(input.take(i + 1).last() == input[i as int]);
                assert(input[i as int] == options@[i as int]@);
            }
            if !found {
                distinct.push(options[i].clone());
                proof {
                    assert(Seq::new(distinct@.len(), |k2: int| distinct@[k2]@) =~= before.push(
                        options@[i as int]@,
                    ));
                }
            }
            i = i + 1;
        }
        proof {
            assert(input.take(options@.len() as int) =~= input);
        }
        Self { options: distinct }
    }

    /// Returns a reference onto the available options.
    pub fn get_options(&self) -> (r: &Vec<String>)
        ensures
            r@.len() == self.spec_options().len(),
            forall|i: int| 0 <= i < r@.len() ==> (#[trigger] r@[i])@ == self.spec_options()[i],
    {
        &self.options
    }
}

/// A single enum value: a reference onto its descriptor and the index of the
/// currently selected option, if any.
pub struct EnumValue {
    /// Reference onto the enum value descriptor.
    descriptor: Arc<EnumDescriptor>,
    /// The index of the current value.
    value: Option<usize>,
}

impl EnumValue {
    /// A selected index always points at one of the descriptor's options.
    pub closed spec fn wf(&self) -> bool {
        self.value matches Some(i) ==> i < self.descriptor.spec_options().len()
    }

    /// The selected option, if any.
    pub closed spec fn spec_value(&self) -> Option<Seq<char>> {
        match self.value {
            Some(i) => Some(self.descriptor.spec_options()[i as int]),
            None => None,
        }
    }

    /// The available options.
    pub closed spec fn spec_options(&self) -> Seq<Seq<char>> {
        self.descriptor.spec_options()
    }

    /// Returns a new empty enum value over the given descriptor.
    pub fn new(descriptor: Arc<EnumDescriptor>) -> (r: Self)
        ensures
            r.wf(),
            r.spec_value() is None,
            r.spec_options() == descriptor.spec_options(),
    {
        Self { descriptor, value: None }
    }

    /// Returns true if the enum value is empty, that is, has no option
    /// assigned.
    pub fn is_empty(&self) -> (r: bool)
        ensures
            r == (self.spec_value() is None),
    {
        self.value.is_none()
    }

    /// Sets the enum to the given option.  An option that the descriptor
    /// does not offer is rejected and nothing changes.
    pub fn set_value(&mut self, option: &str) -> (r: Result<(), Error>)
        requires
            old(self).wf(),
        ensures
            final(self).wf(),
            final(self).spec_options() == old(self).spec_options(),
            r is Ok <==> old(self).spec_options().contains(option@),
            match r {
                Ok(()) => final(self).spec_value() == Some(option@),
                Err(e) => final(self).spec_value() == old(self).spec_value()
                    && e.is_invalid_argument(),
            },
    {
        let options = &self.descriptor.options;
        let mut k: usize = 0;
        let mut found: Option<usize> = None;
        while k < options.len()
            invariant
                0 <= k <= options@.len(),
                options@ == self.descriptor.options@,
                match found {
                    Some(j) => j < k && options@[j as int]@ == option@,
                    None => forall|j: int| 0 <= j < k ==> (#[trigger] options@[j])@ != option@,
                },
            decreases options@.len() - k,
        {
            if found.is_none() && str_eq(options[k].as_str(), option) {
                found = Some(k);
            }
            k = k + 1;
        }
        match found {
            Some(index) => {
                proof {
                    assert(self.descriptor.spec_options()[index as int] == option@);
                    assert(self.descriptor.spec_options().contains(option@));
                }
                self.value = Some(index);
                Ok(())
            },
            None => {
                proof {
                    if self.descriptor.spec_options().contains(option@) {
                        let j = choose|j: int|
                            0 <= j < self.descriptor.spec_options().len()
                                && #[trigger] self.descriptor.spec_options()[j] == option@;
                        assert(self.descriptor.options@[j]@ == option@);
                    }
                }
                Err(Error::InvalidArgument("not a valid option".to_owned()))
            },
        }
    }

    /// Returns the option of the enum value, if one is selected.
    pub fn get_value(&self) -> (r: Option<&str>)
        requires
            self.wf(),
        ensures
            match r {
                Some(s) => self.spec_value() == Some(s@),
                None => self.spec_value() is None,
            },
    {
        match self.value {
            Some(index) => Some(self.descriptor.options[index].as_str()),
            None => None,
        }
    }
}

} // verus!
