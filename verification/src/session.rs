//! One runtime-host session: the registry of native modules bound into the
//! guest's global namespace, the injected argument vector, the session's
//! phase machine, and the launcher's error taxonomy.
use vstd::prelude::*;

use crate::strings::str_eq;
use crate::strings::views_of;

verus! {

/// Guest globals that no module may shadow: the interpreter's own standard
/// globals plus the injected argument sequence.
pub open spec fn reserved_globals() -> Seq<Seq<char>> {
    seq![
        "print"@,
        "type"@,
        "pairs"@,
        "ipairs"@,
        "tostring"@,
        "tonumber"@,
        "pcall"@,
        "error"@,
        "require"@,
        "table"@,
        "string"@,
        "math"@,
        "os"@,
        "io"@,
        "arg"@,
    ]
}

/// The names under which the native capability modules are bound, in the
/// order they are registered.
pub open spec fn module_set() -> Seq<Seq<char>> {
    seq!["fs"@, "stringx"@, "regex"@, "http"@, "clipboard"@]
}

/// Whether `name` is a guest global that modules may not shadow.
pub fn is_reserved_global(name: &str) -> (r: bool)
    ensures
        r == reserved_globals().contains(name@),
{
    let r = str_eq(name, "print") || str_eq(name, "type") || str_eq(name, "pairs") || str_eq(
        name,
        "ipairs",
    ) || str_eq(name, "tostring") || str_eq(name, "tonumber") || str_eq(name, "pcall") || str_eq(
        name,
        "error",
    ) || str_eq(name, "require") || str_eq(name, "table") || str_eq(name, "string") || str_eq(
        name,
        "math",
    ) || str_eq(name, "os") || str_eq(name, "io") || str_eq(name, "arg");
    proof {
        if r {
            assert(reserved_globals().contains(name@));
        } else {
            assert(forall|i: int|
                0 <= i < reserved_globals().len() ==> reserved_globals()[i] != name@);
        }
    }
    r
}

/// A name different from every reserved global is not among them.
proof fn lemma_not_reserved(x: Seq<char>)
    requires
        x != "print"@,
        x != "type"@,
        x != "pairs"@,
        x != "ipairs"@,
        x != "tostring"@,
        x != "tonumber"@,
        x != "pcall"@,
        x != "error"@,
        x != "require"@,
        x != "table"@,
        x != "string"@,
        x != "math"@,
        x != "os"@,
        x != "io"@,
        x != "arg"@,
    ensures
        !reserved_globals().contains(x),
{
    assert forall|k: int| 0 <= k < reserved_globals().len() implies reserved_globals()[k] != x by {
        if k == 0 {
            assert(reserved_globals()[0] == "print"@);
        } else if k == 1 {
            assert(reserved_globals()[1] == "type"@);
        } else if k == 2 {
            assert(reserved_globals()[2] == "pairs"@);
        } else if k == 3 {
            assert(reserved_globals()[3] == "ipairs"@);
        } else if k == 4 {
            assert(reserved_globals()[4] == "tostring"@);
        } else if k == 5 {
            assert(reserved_globals()[5] == "tonumber"@);
        } else if k == 6 {
            assert(reserved_globals()[6] == "pcall"@);
        } else if k == 7 {
            assert(reserved_globals()[7] == "error"@);
        } else if k == 8 {
            assert(reserved_globals()[8] == "require"@);
        } else if k == 9 {
            assert(reserved_globals()[9] == "table"@);
        } else if k == 10 {
            assert(reserved_globals()[10] == "string"@);
        } else if k == 11 {
            assert(reserved_globals()[11] == "math"@);
        } else if k == 12 {
            assert(reserved_globals()[12] == "os"@);
        } else if k == 13 {
            assert(reserved_globals()[13] == "io"@);
        } else if k == 14 {
            assert(reserved_globals()[14] == "arg"@);
        }
    }
}

/// The fixed module names shadow no reserved global and do not collide
/// with one another.
pub proof fn lemma_module_set_fresh()
    ensures
        !reserved_globals().contains("fs"@),
        !reserved_globals().contains("stringx"@),
        !reserved_globals().contains("regex"@),
        !reserved_globals().contains("http"@),
        !reserved_globals().contains("clipboard"@),
        "fs"@ != "stringx"@,
        "fs"@ != "regex"@,
        "fs"@ != "http"@,
        "fs"@ != "clipboard"@,
        "stringx"@ != "regex"@,
        "stringx"@ != "http"@,
        "stringx"@ != "clipboard"@,
        "regex"@ != "http"@,
        "regex"@ != "clipboard"@,
        "http"@ != "clipboard"@,
{
    reveal_strlit("fs");
    reveal_strlit("stringx");
    reveal_strlit("regex");
    reveal_strlit("http");
    reveal_strlit("clipboard");
    reveal_strlit("print");
    reveal_strlit("type");
    reveal_strlit("pairs");
    reveal_strlit("ipairs");
    reveal_strlit("tostring");
    reveal_strlit("tonumber");
    reveal_strlit("pcall");
    reveal_strlit("error");
    reveal_strlit("require");
    reveal_strlit("table");
    reveal_strlit("string");
    reveal_strlit("math");
    reveal_strlit("os");
    reveal_strlit("io");
    reveal_strlit("arg");
    assert(("print"@).len() == 5);
    assert(("type"@).len() == 4);
    assert(("pairs"@).len() == 5);
    assert(("ipairs"@).len() == 6);
    assert(("tostring"@).len() == 8);
    assert(("tonumber"@).len() == 8);
    assert(("pcall"@).len() == 5);
    assert(("error"@).len() == 5);
    assert(("require"@).len() == 7);
    assert(("table"@).len() == 5);
    assert(("string"@).len() == 6);
    assert(("math"@).len() == 4);
    assert(("os"@).len() == 2);
    assert(("io"@).len() == 2);
    assert(("arg"@).len() == 3);
    assert(("fs"@).len() == 2);
    assert(("stringx"@).len() == 7);
    assert(("regex"@).len() == 5);
    assert(("http"@).len() == 4);
    assert(("clipboard"@).len() == 9);
    assert(("fs"@)[0] == 'f');
    assert(("os"@)[0] == 'o');
    assert(("io"@)[0] == 'i');
    assert(("regex"@)[0] == 'r');
    assert(("print"@)[0] == 'p');
    assert(("error"@)[0] == 'e');
    assert(("pairs"@)[0] == 'p');
    assert(("table"@)[0] == 't');
    assert(("http"@)[0] == 'h');
    assert(("type"@)[0] == 't');
    assert(("math"@)[0] == 'm');
    assert(("stringx"@)[0] == 's');
    assert(("require"@)[0] == 'r');
    lemma_not_reserved("fs"@);
    lemma_not_reserved("stringx"@);
    lemma_not_reserved("regex"@);
    lemma_not_reserved("http"@);
    lemma_not_reserved("clipboard"@);
}

/// Why a module binding was refused.
#[derive(PartialEq, Eq, Structural)]
pub enum BindError {
    /// The name is a guest global that must not be shadowed.
    Reserved,
    /// A module of that name is already bound.
    Duplicate,
}

/// The modules bound into the guest's global namespace during one session.
/// Invariant: bound names never collide with each other nor with the guest's
/// reserved globals.
pub struct Registry {
    names: Vec<String>,
}

impl Registry {
    /// The bound module names, in registration order.
    pub closed spec fn names_seq(self) -> Seq<Seq<char>> {
        views_of(self.names@)
    }

    pub open spec fn wf(self) -> bool {
        &&& forall|i: int, j: int|
            0 <= i < j < self.names_seq().len() ==> self.names_seq()[i] != self.names_seq()[j]
        &&& forall|i: int|
            0 <= i < self.names_seq().len() ==> !reserved_globals().contains(self.names_seq()[i])
    }

    /// A registry with nothing bound.
    pub fn new() -> (r: Registry)
        ensures
            r.names_seq() == Seq::<Seq<char>>::empty(),
            r.wf(),
    {
        let r = Registry { names: Vec::new() };
        proof {
            assert(r.names_seq() =~= Seq::<Seq<char>>::empty());
        }
        r
    }

    /// The bound module names, in registration order.
    pub fn bound_names(&self) -> (r: Vec<String>)
        ensures
            views_of(r@) == self.names_seq(),
    {
        let mut out: Vec<String> = Vec::new();
        let mut k: usize = 0;
        while k < self.names.len()
            invariant
                k <= self.names@.len(),
                views_of(out@).len() == k,
                forall|j: int| 0 <= j < k ==> views_of(out@)[j] == self.names_seq()[j],
            decreases self.names@.len() - k,
        {
            out.push(self.names[k].clone());
            k = k + 1;
        }
        proof {
            assert(views_of(out@) =~= self.names_seq());
        }
        out
    }

    /// Whether a module is already bound under `name`.
    pub fn is_bound(&self, name: &str) -> (r: bool)
        ensures
            r == self.names_seq().contains(name@),
    {
        let mut k: usize = 0;
        while k < self.names.len()
            invariant
                k <= self.names@.len(),
                forall|j: int| 0 <= j < k ==> self.names_seq()[j] != name@,
            decreases self.names@.len() - k,
        {
            if str_eq(self.names[k].as_str(), name) {
                proof {
                    assert(self.names_seq()[k as int] == name@);
                }
                return true;
            }
            k = k + 1;
        }
        proof {
            assert(forall|j: int| 0 <= j < self.names_seq().len() ==> self.names_seq()[j] != name@);
        }
        false
    }

    /// Bind a module under `name`.  The binding is refused — and the
    /// registry left unchanged — exactly when the name shadows a reserved
    /// global or is already bound.
    pub fn register(&mut self, name: String) -> (r: Result<(), BindError>)
        requires
            old(self).wf(),
        ensures
            final(self).wf(),
            match r {
                Ok(()) => !reserved_globals().contains(name@) && !old(self).names_seq().contains(
                    name@,
                ) && final(self).names_seq() == old(self).names_seq().push(name@),
                Err(BindError::Reserved) => reserved_globals().contains(name@) && *final(self)
                    == *old(self),
                Err(BindError::Duplicate) => !reserved_globals().contains(name@) && old(
                    self,
                ).names_seq().contains(name@) && *final(self) == *old(self),
            },
    {
        if is_reserved_global(name.as_str()) {
            return Err(BindError::Reserved);
        }
        if self.is_bound(name.as_str()) {
            return Err(BindError::Duplicate);
        }
        let ghost old_names = self.names_seq();
        self.names.push(name);
        proof {
            assert(self.names_seq() =~= old_names.push(self.names@.last()@));
            assert forall|i: int, j: int|
                0 <= i < j < self.names_seq().len() implies self.names_seq()[i]
                != self.names_seq()[j] by {
                if j + 1 == self.names_seq().len() {
                    assert(!old_names.contains(self.names_seq()[j]));
                }
            }
        }
        Ok(())
    }

    /// Bind the full, fixed module set into a fresh registry.  This always
    /// succeeds and leaves exactly the standard module names bound.
    pub fn register_standard(&mut self) -> (r: Result<(), BindError>)
        requires
            old(self).names_seq() == Seq::<Seq<char>>::empty(),
        ensures
            r is Ok,
            final(self).wf(),
            final(self).names_seq() == module_set(),
    {
        proof {
            lemma_module_set_fresh();
            assert(old(self).wf());
        }
        let r1 = self.register("fs".to_owned());
        proof {
            assert(r1 is Ok);
        }
        let r2 = self.register("stringx".to_owned());
        proof {
            assert(r2 is Ok);
        }
        let r3 = self.register("regex".to_owned());
        proof {
            assert(r3 is Ok);
        }
        let r4 = self.register("http".to_owned());
        proof {
            assert(r4 is Ok);
        }
        let r5 = self.register("clipboard".to_owned());
        proof {
            assert(r5 is Ok);
            assert(self.names_seq() =~= module_set());
        }
        Ok(())
    }
}

/// Registering the fixed module set is a function of the fresh session
/// alone: any two sessions that each bound the full set hold exactly the
/// same bindings, so nothing a prior session did is observable in a later
/// session's registration.
pub proof fn lemma_registration_isolated(a: Registry, b: Registry)
    requires
        a.names_seq() == module_set(),
        b.names_seq() == module_set(),
    ensures
        a.names_seq() == b.names_seq(),
{
}

/// The guest-visible argument sequence: the process arguments, in order,
/// keyed 1-based — the first process argument appears at index 1.
pub fn arg_entries(args: &Vec<String>) -> (r: Vec<(usize, String)>)
    requires
        args@.len() < usize::MAX,
    ensures
        r@.len() == args@.len(),
        forall|i: int| 0 <= i < r@.len() ==> #[trigger] r@[i].0 == i + 1 && r@[i].1@ == args@[i]@,
{
    let mut out: Vec<(usize, String)> = Vec::new();
    let mut k: usize = 0;
    while k < args.len()
        invariant
            args@.len() < usize::MAX,
            k <= args@.len(),
            out@.len() == k,
            forall|i: int|
                0 <= i < k ==> #[trigger] out@[i].0 == i + 1 && out@[i].1@ == args@[i]@,
        decreases args@.len() - k,
    {
        out.push((k + 1, args[k].clone()));
        k = k + 1;
    }
    out
}

/// Where a session stands, from interpreter creation to completion or first
/// unhandled fault.
#[derive(PartialEq, Eq, Structural, Clone, Copy)]
pub enum Phase {
    Created,
    Configured,
    Loaded,
    Running,
    Completed,
    Faulted,
}

/// Why the launcher failed, by kind.
pub enum LaunchError {
    /// The named script was found in no search tier.
    Resolution(String),
    /// The interpreter or a module binding could not be constructed.
    Setup(String),
    /// The script source failed to compile; carries the resolved path and
    /// the compiler's message.
    Compile(String, String),
    /// An unhandled fault escaped the top level of the running script.
    Fault(String),
}

/// One runtime-host session: its phase, its module bindings, the injected
/// arguments, and the first fault message, if any.
pub struct Session {
    phase: Phase,
    registry: Registry,
    args: Vec<String>,
    fault: Option<String>,
}

impl Session {
    pub closed spec fn phase(self) -> Phase {
        self.phase
    }

    /// The module names bound into the guest's global namespace.
    pub closed spec fn bound(self) -> Seq<Seq<char>> {
        self.registry.names_seq()
    }

    /// The injected argument vector.
    pub closed spec fn args_seq(self) -> Seq<Seq<char>> {
        views_of(self.args@)
    }

    /// The first fault message, once the session has faulted.
    pub closed spec fn fault_msg(self) -> Option<Seq<char>> {
        match self.fault {
            Some(m) => Some(m@),
            None => None,
        }
    }

    /// A fresh session around a newly created interpreter: nothing bound,
    /// nothing injected, no fault.
    pub fn new() -> (r: Session)
        ensures
            r.phase() == Phase::Created,
            r.bound() == Seq::<Seq<char>>::empty(),
            r.args_seq() == Seq::<Seq<char>>::empty(),
            r.fault_msg() is None,
    {
        let r = Session { phase: Phase::Created, registry: Registry::new(), args: Vec::new(), fault: None };
        proof {
            assert(r.args_seq() =~= Seq::<Seq<char>>::empty());
        }
        r
    }

    /// Bind the full module set and inject the argument vector.  This moves
    /// a fresh session to `Configured` with exactly the standard modules
    /// bound and the arguments stored verbatim.
    pub fn configure(&mut self, args: Vec<String>) -> (r: Result<(), LaunchError>)
        requires
            old(self).phase() == Phase::Created,
            old(self).bound() == Seq::<Seq<char>>::empty(),
        ensures
            r is Ok,
            final(self).phase() == Phase::Configured,
            final(self).bound() == module_set(),
            final(self).args_seq() == views_of(args@),
            final(self).fault_msg() == old(self).fault_msg(),
    {
        let reg_result = self.registry.register_standard();
        proof {
            assert(reg_result is Ok);
        }
        self.args = args;
        self.phase = Phase::Configured;
        Ok(())
    }

    /// Record the outcome of compiling the resolved script source.  Success
    /// moves to `Loaded`; a compile failure moves straight to `Faulted`
    /// without the script ever running, keeping the compiler's message.
    pub fn load(&mut self, compiled: Result<(), String>)
        requires
            old(self).phase() == Phase::Configured,
        ensures
            final(self).bound() == old(self).bound(),
            final(self).args_seq() == old(self).args_seq(),
            match compiled {
                Ok(()) => final(self).phase() == Phase::Loaded && final(self).fault_msg() == old(
                    self,
                ).fault_msg(),
                Err(m) => final(self).phase() == Phase::Faulted && final(self).fault_msg() == Some(
                    m@,
                ),
            },
    {
        match compiled {
            Ok(()) => {
                self.phase = Phase::Loaded;
            },
            Err(m) => {
                self.phase = Phase::Faulted;
                self.fault = Some(m);
            },
        }
    }

    /// Begin executing the loaded script.
    pub fn start(&mut self)
        requires
            old(self).phase() == Phase::Loaded,
        ensures
            final(self).phase() == Phase::Running,
            final(self).bound() == old(self).bound(),
            final(self).args_seq() == old(self).args_seq(),
            final(self).fault_msg() == old(self).fault_msg(),
    {
        self.phase = Phase::Running;
    }

    /// Record how execution ended: a normal return completes the session; an
    /// unhandled fault — including a fault isolated at a worker boundary —
    /// moves it to `Faulted` with the originating message.
    pub fn finish(&mut self, outcome: Result<(), String>)
        requires
            old(self).phase() == Phase::Running,
        ensures
            final(self).bound() == old(self).bound(),
            final(self).args_seq() == old(self).args_seq(),
            match outcome {
                Ok(()) => final(self).phase() == Phase::Completed && final(self).fault_msg()
                    == old(self).fault_msg(),
                Err(m) => final(self).phase() == Phase::Faulted && final(self).fault_msg() == Some(
                    m@,
                ),
            },
    {
        match outcome {
            Ok(()) => {
                self.phase = Phase::Completed;
            },
            Err(m) => {
                self.phase = Phase::Faulted;
                self.fault = Some(m);
            },
        }
    }

    /// The process exit status the session reports: zero exactly when the
    /// script completed normally.
    pub fn exit_code(&self) -> (r: i32)
        ensures
            (r == 0) <==> self.phase() == Phase::Completed,
    {
        if self.phase == Phase::Completed {
            0
        } else {
            1
        }
    }
}

/// The process exit status for a whole launcher run: zero exactly on
/// success.
pub fn exit_code_for(outcome: &Result<(), LaunchError>) -> (r: i32)
    ensures
        (r == 0) <==> outcome is Ok,
{
    match outcome {
        Ok(()) => 0,
        Err(_) => 1,
    }
}

/// The reported message for a resolution failure, naming the script.
pub fn resolution_message(name: &str) -> (r: String)
    ensures
        r@ == "Script for '"@ + name@ + "' not found"@,
{
    let mut out = "Script for '".to_owned();
    out.append(name);
    out.append("' not found");
    out
}

} // verus!
