//! What a configuration may say about the trap backend, checked before a
//! controller is built from it.

use crate::queue::QUEUE_CAPACITY;
use vstd::prelude::*;

verus! {

/// The mechanisms that can raise the real trap. One of them is chosen per build.
#[derive(Clone, Copy, Debug, PartialEq, Eq, Structural)]
pub enum Backend {
    /// Writes the pending bit of a memory-mapped software-interrupt register.
    Clint,
    /// Executes an instruction that traps into the environment.
    Mecall,
    /// Sets the software-interrupt bit of the supervisor's interrupt-status register.
    Ssoft,
}

/// What a backend is told beyond its kind.
#[derive(Clone, Copy, Debug, PartialEq, Eq, Structural)]
pub struct BackendInput {
    /// The hart whose software interrupt is raised.
    pub hart_id: Option<u16>,
}

/// What can be wrong with a configuration.
#[derive(Clone, Copy, Debug, PartialEq, Eq, Structural)]
pub enum ConfigError {
    /// A hardware line or a source is named twice.
    DuplicateIdentifier,
    /// A source is named that the controller does not have.
    InvalidIdentifier,
    /// Something the backend needs is not given.
    MissingIdentifier,
    /// Input is given to a backend that takes none.
    UnexpectedInput,
    /// More sources are named than a controller can serve.
    TooManyIdentifiers,
    /// No backend is selected.
    NoBackend,
    /// More than one backend is selected.
    MultipleBackends,
}

/// Whether `input` is what `backend` asks for: the register-writing backend
/// must be told the hart, the other two take no input at all.
pub open spec fn backend_input_fault(backend: Backend, input: Option<BackendInput>) -> Option<ConfigError> {
    match backend {
        Backend::Clint => match input {
            Some(given) => if given.hart_id is Some {
                None
            } else {
                Some(ConfigError::MissingIdentifier)
            },
            None => Some(ConfigError::MissingIdentifier),
        },
        _ => if input is Some {
            Some(ConfigError::UnexpectedInput)
        } else {
            None
        },
    }
}

/// Checks the input given to a backend and returns the hart to address, if
/// the backend addresses one.
pub fn check_backend_input(backend: Backend, input: Option<BackendInput>) -> (checked: Result<
    Option<u16>,
    ConfigError,
>)
    ensures
        match backend_input_fault(backend, input) {
            Some(fault) => checked == Err::<Option<u16>, ConfigError>(fault),
            None => checked is Ok && checked->Ok_0 == (if backend == Backend::Clint {
                input->0.hart_id
            } else {
                None
            }),
        },
{
    match backend {
        Backend::Clint => match input {
            Some(given) => match given.hart_id {
                Some(hart) => Ok(Some(hart)),
                None => Err(ConfigError::MissingIdentifier),
            },
            None => Err(ConfigError::MissingIdentifier),
        },
        _ => match input {
            Some(_) => Err(ConfigError::UnexpectedInput),
            None => Ok(None),
        },
    }
}

/// Picks the backend of a build from the backends that were selected for
/// it: exactly one must be.
pub fn select_backend(selected: &[Backend]) -> (backend: Result<Backend, ConfigError>)
    ensures
        selected@.len() == 0 ==> backend == Err::<Backend, ConfigError>(ConfigError::NoBackend),
        selected@.len() == 1 ==> backend == Ok::<Backend, ConfigError>(selected@[0]),
        selected@.len() > 1 ==> backend == Err::<Backend, ConfigError>(ConfigError::MultipleBackends),
{
    if selected.len() == 0 {
        Err(ConfigError::NoBackend)
    } else if selected.len() > 1 {
        Err(ConfigError::MultipleBackends)
    } else {
        Ok(selected[0])
    }
}

/// What is wrong with the `k`-th of the names `names`, if anything: it is
/// empty, or an earlier name is the same.
pub open spec fn name_fault(names: Seq<Seq<char>>, k: int) -> Option<ConfigError> {
    if names[k].len() == 0 {
        Some(ConfigError::InvalidIdentifier)
    } else if exists|j: int| 0 <= j < k && names[j] == names[k] {
        Some(ConfigError::DuplicateIdentifier)
    } else {
        None
    }
}

/// The names of the software sources, in the order of their numbers: the
/// first name is source 0, the next source 1, and so on. No name is empty,
/// no two are the same, and there are no more than a controller can serve.
pub struct HandlersInput {
    names: Vec<String>,
}

impl View for HandlersInput {
    type V = Seq<Seq<char>>;

    closed spec fn view(&self) -> Seq<Seq<char>> {
        Seq::new(self.names@.len(), |i: int| self.names@[i]@)
    }
}

/// The names held in `names`, each as its characters.
pub open spec fn names_of(names: Seq<String>) -> Seq<Seq<char>> {
    Seq::new(names.len(), |i: int| names[i]@)
}

impl HandlersInput {
    /// No name is empty, no two are the same, and a controller can serve them all.
    pub open spec fn wf(&self) -> bool {
        &&& self@.len() <= QUEUE_CAPACITY
        &&& forall|k: int| 0 <= k < self@.len() ==> name_fault(self@, k) is None
    }

    /// The number of the source called `name`, if a source is called so.
    pub open spec fn number_of(&self, name: Seq<char>) -> Option<u16> {
        if exists|k: int| 0 <= k < self@.len() && self@[k] == name {
            Some((choose|k: int| 0 <= k < self@.len() && self@[k] == name) as u16)
        } else {
            None
        }
    }

    /// Takes the names of the sources, if they are sound. Too many names are
    /// refused as such; otherwise the first name that something is wrong
    /// with decides what is reported.
    pub fn new(names: Vec<String>) -> (input: Result<Self, ConfigError>)
        ensures
            match input {
                Ok(handlers) => handlers@ == names_of(names@) && handlers.wf(),
                Err(fault) => if names@.len() > QUEUE_CAPACITY {
                    fault == ConfigError::TooManyIdentifiers
                } else {
                    exists|k: int|
                        0 <= k < names@.len() && name_fault(names_of(names@), k) == Some(fault) && forall|j: int|
                            0 <= j < k ==> name_fault(names_of(names@), j) is None
                },
            },
    {
        if names.len() > QUEUE_CAPACITY {
            return Err(ConfigError::TooManyIdentifiers);
        }
        let ghost all = names_of(names@);
        let mut k: usize = 0;
        while k < names.len()
            invariant
                0 <= k <= names@.len() <= QUEUE_CAPACITY,
                all == names_of(names@),
                forall|i: int| 0 <= i < k ==> name_fault(all, i) is None,
            decreases names@.len() - k,
        {
            if names[k].as_str().is_empty() {
                assert(name_fault(all, k as int) == Some(ConfigError::InvalidIdentifier));
                return Err(ConfigError::InvalidIdentifier);
            }
            let mut j: usize = 0;
            while j < k
                invariant
                    0 <= j <= k < names@.len() <= QUEUE_CAPACITY,
                    all == names_of(names@),
                    all[k as int].len() > 0,
                    forall|i: int| 0 <= i < k ==> name_fault(all, i) is None,
                    forall|i: int| 0 <= i < j ==> all[i] != all[k as int],
                decreases k - j,
            {
                if names[j] == names[k] {
                    assert(all[j as int] == all[k as int]);
                    assert(name_fault(all, k as int) == Some(ConfigError::DuplicateIdentifier));
                    return Err(ConfigError::DuplicateIdentifier);
                }
                j = j + 1;
            }
            assert(name_fault(all, k as int) is None);
            k = k + 1;
        }
        let handlers = HandlersInput { names };
        assert(handlers@ =~= all);
        Ok(handlers)
    }

    /// Number of sources named.
    pub fn len(&self) -> (len: usize)
        ensures
            len == self@.len(),
    {
        self.names.len()
    }

    /// The number of the source called `name`, if a source is called so.
    pub fn number(&self, name: &String) -> (number: Option<u16>)
        requires
            self.wf(),
        ensures
            number == self.number_of(name@),
            number is Some ==> (number->0 as int) < self@.len() && self@[number->0 as int] == name@,
    {
        let mut k: usize = 0;
        while k < self.names.len()
            invariant
                0 <= k <= self@.len(),
                self@.len() == self.names@.len(),
                self.wf(),
                forall|i: int| 0 <= i < k ==> self@[i] != name@,
            decreases self@.len() - k,
        {
            if self.names[k] == *name {
                proof {
                    assert(self@[k as int] == name@);
                    let chosen = choose|i: int| 0 <= i < self@.len() && self@[i] == name@;
                    if chosen < k as int {
                        assert(self@[chosen] != name@);
                    } else if chosen > k as int {
                        assert(name_fault(self@, chosen) is None);
                        assert(self@[k as int] == self@[chosen]);
                    }
                    assert(chosen == k as int);
                }
                return Some(k as u16);
            }
            k = k + 1;
        }
        None
    }
}

} // verus!
