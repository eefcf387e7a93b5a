//! The process-wide registry of live child processes and the decision
//! logic of the process namespace. The host owns the operating-system
//! handles and performs spawn, wait and kill; this module owns the
//! bookkeeping those operations must keep truthful: an entry exists
//! exactly while a process has been spawned and not yet reaped or removed.

use vstd::prelude::*;

use crate::errors::SandboxError;
use crate::jail::{spec_absolute, spec_has_traversal, spec_join, validate_lexical};
use crate::permissions::{spec_has_permission, PermissionSet};

verus! {

/// The bookkeeping for one live child process.
pub struct ProcessEntry {
    /// The operating-system process id.
    pub pid: u32,
    /// The program path the process was spawned from.
    pub program: String,
    /// Standard-output bytes read so far and not yet handed to a script.
    pub stdout_buf: Vec<u8>,
}

/// The model of one entry: pid, program, buffered output.
pub type EntryV = (u32, Seq<char>, Seq<u8>);

/// The model of a registry entry sequence.
pub open spec fn entries_model(s: Seq<ProcessEntry>) -> Seq<EntryV> {
    Seq::new(
        s.len(),
        |i: int|
            if 0 <= i < s.len() {
                (s[i].pid, s[i].program@, s[i].stdout_buf@)
            } else {
                (0u32, Seq::empty(), Seq::empty())
            },
    )
}

/// The first position holding the pid, if any.
pub open spec fn spec_pid_at(es: Seq<EntryV>, pid: u32) -> Option<int>
    decreases es.len(),
{
    if es.len() == 0 {
        None
    } else if es[0].0 == pid {
        Some(0)
    } else {
        match spec_pid_at(es.drop_first(), pid) {
            Some(j) => Some(j + 1),
            None => None,
        }
    }
}

/// No pid occurs twice.
pub open spec fn spec_registry_wf(es: Seq<EntryV>) -> bool {
    forall|i: int, j: int| 0 <= i < j < es.len() ==> (#[trigger] es[i]).0 != (#[trigger] es[j]).0
}

/// What the first matching position means.
proof fn lemma_pid_at(es: Seq<EntryV>, pid: u32)
    ensures
        match spec_pid_at(es, pid) {
            Some(j) => 0 <= j < es.len() && es[j].0 == pid && forall|i: int|
                0 <= i < j ==> (#[trigger] es[i]).0 != pid,
            None => forall|i: int| 0 <= i < es.len() ==> (#[trigger] es[i]).0 != pid,
        },
    decreases es.len(),
{
    if es.len() > 0 && es[0].0 != pid {
        let sub = es.drop_first();
        lemma_pid_at(sub, pid);
        assert forall|i: int| 0 <= i < sub.len() implies #[trigger] sub[i] == es[i + 1] by {}
        match spec_pid_at(sub, pid) {
            Some(j) => {
                assert(es[j + 1] == sub[j]);
                assert forall|i: int| 0 <= i < j + 1 implies (#[trigger] es[i]).0 != pid by {
                    if i >= 1 {
                        assert(sub[i - 1] == es[i]);
                    }
                }
            },
            None => {
                assert forall|i: int| 0 <= i < es.len() implies (#[trigger] es[i]).0 != pid by {
                    if i >= 1 {
                        assert(sub[i - 1] == es[i]);
                    }
                }
            },
        }
    }
}

/// The process-wide table of live child processes, keyed by process id,
/// shared by every plugin runtime. The host guards it with one mutual
/// exclusion lock and recovers that lock from a panicked holder rather
/// than losing track of live children.
pub struct ProcessRegistry {
    entries: Vec<ProcessEntry>,
}

impl ProcessRegistry {
    /// The mathematical registry.
    pub closed spec fn view_entries(&self) -> Seq<EntryV> {
        entries_model(self.entries@)
    }

    /// Every pid occurs once.
    pub open spec fn wf(&self) -> bool {
        spec_registry_wf(self.view_entries())
    }

    /// An empty registry.
    pub fn new() -> (r: ProcessRegistry)
        ensures
            r.view_entries() == Seq::<EntryV>::empty(),
            r.wf(),
    {
        let r = ProcessRegistry { entries: Vec::new() };
        proof {
            assert(entries_model(r.entries@) =~= Seq::<EntryV>::empty());
        }
        r
    }

    /// The executable scan for a pid.
    #[verifier::loop_isolation(false)]
    fn find_pid(&self, pid: u32) -> (r: Option<usize>)
        ensures
            match r {
                Some(j) => j < self.entries.len() && spec_pid_at(self.view_entries(), pid)
                    == Some(j as int),
                None => spec_pid_at(self.view_entries(), pid) is None,
            },
    {
        let ghost es = self.view_entries();
        proof {
            lemma_pid_at(es, pid);
        }
        let mut i: usize = 0;
        while i < self.entries.len()
            invariant
                i <= self.entries.len(),
                es == self.view_entries(),
                es.len() == self.entries.len(),
                forall|j: int| 0 <= j < i ==> (#[trigger] es[j]).0 != pid,
            decreases self.entries.len() - i,
        {
            if self.entries[i].pid == pid {
                proof {
                    assert(es[i as int].0 == pid);
                    match spec_pid_at(es, pid) {
                        Some(j0) => {
                            if j0 < i {
                                assert(es[j0].0 != pid);
                            } else if j0 > i {
                                assert(es[i as int].0 != pid);
                            }
                        },
                        None => {
                            assert(es[i as int].0 != pid);
                        },
                    }
                }
                return Some(i);
            }
            assert(es[i as int].0 != pid);
            i += 1;
        }
        None
    }

    /// Whether the pid is registered.
    pub fn contains(&self, pid: u32) -> (r: bool)
        ensures
            r == (spec_pid_at(self.view_entries(), pid) is Some),
    {
        match self.find_pid(pid) {
            Some(_) => true,
            None => false,
        }
    }

    /// The program a registered pid was spawned from.
    pub fn program_of(&self, pid: u32) -> (r: Option<String>)
        ensures
            match r {
                Some(p) => spec_pid_at(self.view_entries(), pid) matches Some(j) && p@
                    == self.view_entries()[j].1,
                None => spec_pid_at(self.view_entries(), pid) is None,
            },
    {
        match self.find_pid(pid) {
            Some(j) => Some(self.entries[j].program.clone()),
            None => None,
        }
    }

    /// Records a freshly spawned process, with an empty output buffer; a
    /// stale entry under the same pid is replaced, as the id has been
    /// reused by the system.
    #[verifier::loop_isolation(false)]
    pub fn register(&mut self, pid: u32, program: String)
        ensures
            final(self).view_entries() == (match spec_pid_at(old(self).view_entries(), pid) {
                Some(j) => old(self).view_entries().update(j, (pid, program@, Seq::empty())),
                None => old(self).view_entries().push((pid, program@, Seq::empty())),
            }),
            old(self).wf() ==> final(self).wf(),
    {
        let ghost es = self.view_entries();
        proof {
            lemma_pid_at(es, pid);
        }
        match self.find_pid(pid) {
            Some(j) => {
                self.entries.set(j, ProcessEntry { pid, program, stdout_buf: Vec::new() });
                proof {
                    assert(self.view_entries() =~= es.update(
                        spec_pid_at(es, pid).unwrap(),
                        (pid, program@, Seq::<u8>::empty()),
                    ));
                    if spec_registry_wf(es) {
                        let es2 = self.view_entries();
                        assert forall|a: int, b: int|
                            0 <= a < b < es2.len() implies (#[trigger] es2[a]).0 != (
                        #[trigger] es2[b]).0 by {
                            assert(es2[a].0 == es[a].0 && es2[b].0 == es[b].0);
                        }
                    }
                }
            },
            None => {
                self.entries.push(ProcessEntry { pid, program, stdout_buf: Vec::new() });
                proof {
                    assert(self.view_entries() =~= es.push((pid, program@, Seq::<u8>::empty())));
                    if spec_registry_wf(es) {
                        let es2 = self.view_entries();
                        assert forall|a: int, b: int|
                            0 <= a < b < es2.len() implies (#[trigger] es2[a]).0 != (
                        #[trigger] es2[b]).0 by {
                            if b < es.len() {
                                assert(es2[a] == es[a] && es2[b] == es[b]);
                            } else {
                                assert(es2[a] == es[a]);
                                assert(es[a].0 != pid);
                            }
                        }
                    }
                }
            },
        }
    }

    /// Drops the entry for a pid, after a foreground wait completed, an
    /// explicit kill, or runtime teardown; reports whether one was there.
    pub fn deregister(&mut self, pid: u32) -> (r: bool)
        ensures
            match spec_pid_at(old(self).view_entries(), pid) {
                Some(j) => r == true && final(self).view_entries() == old(
                    self,
                ).view_entries().remove(j),
                None => r == false && final(self).view_entries() == old(self).view_entries(),
            },
            old(self).wf() ==> final(self).wf(),
    {
        let ghost es = self.view_entries();
        match self.find_pid(pid) {
            Some(j) => {
                self.entries.remove(j);
                proof {
                    assert(self.view_entries() =~= es.remove(j as int));
                    if spec_registry_wf(es) {
                        let es2 = self.view_entries();
                        assert forall|a: int, b: int|
                            0 <= a < b < es2.len() implies (#[trigger] es2[a]).0 != (
                        #[trigger] es2[b]).0 by {
                            let a0 = if a < j {
                                a
                            } else {
                                a + 1
                            };
                            let b0 = if b < j {
                                b
                            } else {
                                b + 1
                            };
                            assert(es2[a] == es[a0] && es2[b] == es[b0]);
                        }
                    }
                }
                true
            },
            None => false,
        }
    }

    /// The registered pids, in registration order.
    #[verifier::loop_isolation(false)]
    pub fn pids(&self) -> (r: Vec<u32>)
        ensures
            r@ =~= self.view_entries().map_values(|e: EntryV| e.0),
    {
        let mut out: Vec<u32> = Vec::new();
        let mut i: usize = 0;
        while i < self.entries.len()
            invariant
                i <= self.entries.len(),
                out.len() == i,
                forall|j: int| 0 <= j < i ==> #[trigger] out@[j] == self.view_entries()[j].0,
            decreases self.entries.len() - i,
        {
            out.push(self.entries[i].pid);
            i += 1;
        }
        proof {
            assert(out@ =~= self.view_entries().map_values(|e: EntryV| e.0));
        }
        out
    }

    /// Hands a script everything buffered for the pid plus the bytes the
    /// host just read, clearing the buffer; nothing buffered and nothing
    /// new resolves to nothing, as does an unknown pid.
    #[verifier::loop_isolation(false)]
    pub fn take_output(&mut self, pid: u32, fresh: &Vec<u8>) -> (r: Option<Vec<u8>>)
        ensures
            match spec_pid_at(old(self).view_entries(), pid) {
                None => r is None && final(self).view_entries() == old(self).view_entries(),
                Some(j) => {
                    let combined = old(self).view_entries()[j].2 + fresh@;
                    ((combined.len() == 0 && r is None) || (combined.len() > 0 && (
                    r matches Some(out) && out@ == combined))) && final(self).view_entries()
                        == old(self).view_entries().update(
                        j,
                        (pid, old(self).view_entries()[j].1, Seq::<u8>::empty()),
                    )
                },
            },
            old(self).wf() ==> final(self).wf(),
    {
        let ghost es = self.view_entries();
        proof {
            lemma_pid_at(es, pid);
        }
        match self.find_pid(pid) {
            Some(j) => {
                let entry = &self.entries[j];
                let mut combined: Vec<u8> = Vec::new();
                let mut k: usize = 0;
                while k < entry.stdout_buf.len()
                    invariant
                        k <= entry.stdout_buf.len(),
                        entry == self.entries[j as int],
                        combined@ =~= entry.stdout_buf@.take(k as int),
                    decreases entry.stdout_buf.len() - k,
                {
                    combined.push(entry.stdout_buf[k]);
                    proof {
                        i_take_step(entry.stdout_buf@, k as int);
                    }
                    k += 1;
                }
                proof {
                    assert(entry.stdout_buf@.take(entry.stdout_buf@.len() as int)
                        =~= entry.stdout_buf@);
                }
                let mut k2: usize = 0;
                while k2 < fresh.len()
                    invariant
                        k2 <= fresh.len(),
                        combined@ =~= self.entries[j as int].stdout_buf@ + fresh@.take(
                            k2 as int,
                        ),
                        j < self.entries.len(),
                    decreases fresh.len() - k2,
                {
                    combined.push(fresh[k2]);
                    proof {
                        i_take_step(fresh@, k2 as int);
                    }
                    k2 += 1;
                }
                proof {
                    assert(fresh@.take(fresh@.len() as int) =~= fresh@);
                }
                let pid_v = self.entries[j].pid;
                let program = self.entries[j].program.clone();
                self.entries.set(j, ProcessEntry { pid: pid_v, program, stdout_buf: Vec::new() });
                proof {
                    assert(self.view_entries() =~= es.update(
                        j as int,
                        (pid, es[j as int].1, Seq::<u8>::empty()),
                    ));
                    if spec_registry_wf(es) {
                        let es2 = self.view_entries();
                        assert forall|a: int, b: int|
                            0 <= a < b < es2.len() implies (#[trigger] es2[a]).0 != (
                        #[trigger] es2[b]).0 by {
                            assert(es2[a].0 == es[a].0 && es2[b].0 == es[b].0);
                        }
                    }
                }
                if combined.len() == 0 {
                    None
                } else {
                    Some(combined)
                }
            },
            None => None,
        }
    }

    /// Forgets every process, mirroring host teardown after it has killed
    /// each child.
    pub fn clear(&mut self)
        ensures
            final(self).view_entries() == Seq::<EntryV>::empty(),
            final(self).wf(),
    {
        self.entries = Vec::new();
        proof {
            assert(self.view_entries() =~= Seq::<EntryV>::empty());
        }
    }
}

/// One step of a take is one pushed element.
proof fn i_take_step(s: Seq<u8>, k: int)
    requires
        0 <= k < s.len(),
    ensures
        s.take(k + 1) == s.take(k).push(s[k]),
{
    assert(s.take(k + 1) =~= s.take(k).push(s[k]));
}

/// The plan for spawning a program: the capability, then the program path
/// and the optional working directory through the jail against the
/// plugin's own directory. The host spawns only on a plan and must still
/// find the program present.
pub fn plan_exec(
    perms: &PermissionSet,
    plugin_dir: &str,
    program: &str,
    cwd: Option<&str>,
) -> (r: Result<(String, Option<String>), SandboxError>)
    ensures
        match r {
            Err(e) => (e == SandboxError::PermissionDenied && !spec_has_permission(
                perms@,
                "execute_program"@,
            )) || (e == SandboxError::InvalidPath && spec_has_permission(
                perms@,
                "execute_program"@,
            ) && (spec_absolute(program@) || spec_has_traversal(program@) || (cwd matches Some(c)
                && (spec_absolute(c@) || spec_has_traversal(c@))))),
            Ok(p) => spec_has_permission(perms@, "execute_program"@) && !spec_absolute(program@)
                && !spec_has_traversal(program@) && p.0@ == spec_join(plugin_dir@, program@) && (
            match (p.1, cwd) {
                (Some(cp), Some(c)) => !spec_absolute(c@) && !spec_has_traversal(c@) && cp@
                    == spec_join(plugin_dir@, c@),
                (None, None) => true,
                _ => false,
            }),
        },
{
    proof {
        reveal_strlit("execute_program");
    }
    if !perms.contains("execute_program") {
        return Err(SandboxError::PermissionDenied);
    }
    let program_path = match validate_lexical(plugin_dir, program) {
        Ok(p) => p,
        Err(_) => {
            return Err(SandboxError::InvalidPath);
        },
    };
    match cwd {
        Some(c) => match validate_lexical(plugin_dir, c) {
            Ok(cp) => Ok((program_path, Some(cp))),
            Err(_) => Err(SandboxError::InvalidPath),
        },
        None => Ok((program_path, None)),
    }
}

} // verus!
