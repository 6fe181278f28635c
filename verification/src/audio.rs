//! Audio sessions as the mixer sees them.

use std::collections::BTreeMap;
use vstd::prelude::*;
use vstd::string::StringExecFns;

use crate::keys::lemma_u32_key_order;

verus! {

/// A change in the set of audio applications or in their volume.
/// Volumes are percentages, already rounded from the operating system's scalar.
#[derive(Debug, Clone)]
pub enum AudioMsg {
    AppOpened { pid: u32, name: String, volume: u8, muted: bool },
    VolumeChanged { pid: u32, volume: u8, muted: bool },
    AppClosed { pid: u32 },
}

/// Name given to processes whose name could not be read.
pub const UNKNOWN_NAME: &'static str = "Unknown";

/// The name shown for an audio application: the file description of its
/// executable when one could be read, else the executable's file name without
/// extension when the process and its path could be read, else `UNKNOWN_NAME`.
pub fn process_name(stem: Option<String>, description: Option<String>) -> (name: String)
    ensures
        name@ == match description {
            Some(d) => d@,
            None => match stem {
                Some(s) => s@,
                None => UNKNOWN_NAME@,
            },
        },
{
    match description {
        Some(d) => d,
        None => match stem {
            Some(s) => s,
            None => String::from_str(UNKNOWN_NAME),
        },
    }
}

/// Whether a process id belongs to the system's own sounds rather than an application.
pub fn is_system_session(pid: u32) -> (r: bool)
    ensures
        r == (pid == 0),
{
    pid == 0
}

/// Whether `name` is on the blacklist.
pub open spec fn blacklisted(blacklist: Seq<String>, name: Seq<char>) -> bool {
    exists|i: int| 0 <= i < blacklist.len() && blacklist[i]@ == name
}

/// The audio sessions being tracked, by process id, and the names of
/// applications that are never tracked. `S` is whatever the operating system
/// needs to keep for a session.
pub struct AudioStateManager<S> {
    sessions: BTreeMap<u32, S>,
    blacklist: Vec<String>,
}

impl<S> AudioStateManager<S> {
    /// The tracked sessions.
    pub closed spec fn sessions(&self) -> Map<u32, S> {
        self.sessions@
    }

    /// The names that are never tracked.
    pub closed spec fn blacklist(&self) -> Seq<String> {
        self.blacklist@
    }

    /// Whether a session of process `pid` named `name` is tracked when it
    /// appears: not the system, not an unknown or blacklisted name, not already tracked.
    pub open spec fn spec_admits(&self, pid: u32, name: Seq<char>) -> bool {
        &&& pid != 0
        &&& name != UNKNOWN_NAME@
        &&& !blacklisted(self.blacklist(), name)
        &&& !self.sessions().contains_key(pid)
    }

    /// A manager that tracks nothing yet.
    pub fn new(blacklist: Vec<String>) -> (m: Self)
        ensures
            m.sessions() == Map::<u32, S>::empty(),
            m.blacklist() == blacklist@,
    {
        AudioStateManager { sessions: BTreeMap::new(), blacklist }
    }

    /// Whether a new session of process `pid` named `name` is to be tracked.
    pub fn admits(&self, pid: u32, name: &String) -> (r: bool)
        ensures
            r == self.spec_admits(pid, name@),
    {
        proof {
            lemma_u32_key_order();
        }
        if pid == 0 {
            return false;
        }
        let unknown = String::from_str(UNKNOWN_NAME);
        if *name == unknown {
            return false;
        }
        let mut i: usize = 0;
        while i < self.blacklist.len()
            invariant
                i <= self.blacklist@.len(),
                forall|j: int| 0 <= j < i ==> self.blacklist@[j]@ != name@,
            decreases self.blacklist@.len() - i,
        {
            if self.blacklist[i] == *name {
                return false;
            }
            i = i + 1;
        }
        !self.sessions.contains_key(&pid)
    }

    /// Tracks the session of process `pid` named `name` when it is admitted
    /// (see `spec_admits`), and says whether it did; otherwise nothing changes
    /// and the application is not reported opened.
    pub fn add_session(&mut self, pid: u32, name: &String, session: S) -> (added: bool)
        ensures
            added == old(self).spec_admits(pid, name@),
            added ==> final(self).sessions() == old(self).sessions().insert(pid, session),
            !added ==> final(self).sessions() == old(self).sessions(),
            final(self).blacklist() == old(self).blacklist(),
    {
        proof {
            lemma_u32_key_order();
        }
        if !self.admits(pid, name) {
            return false;
        }
        self.sessions.insert(pid, session);
        true
    }

    /// Stops tracking the session of process `pid`, handing it back when it
    /// was tracked (the application is then reported closed).
    pub fn remove_session(&mut self, pid: u32) -> (removed: Option<S>)
        ensures
            final(self).sessions() == old(self).sessions().remove(pid),
            final(self).blacklist() == old(self).blacklist(),
            removed is Some <==> old(self).sessions().contains_key(pid),
            removed matches Some(s) ==> s == old(self).sessions()[pid],
    {
        proof {
            lemma_u32_key_order();
        }
        self.sessions.remove(&pid)
    }

    /// The tracked session of process `pid`, whose volume a command may set.
    pub fn session(&self, pid: u32) -> (s: Option<&S>)
        ensures
            s is Some <==> self.sessions().contains_key(pid),
            s matches Some(x) ==> *x == self.sessions()[pid],
    {
        proof {
            lemma_u32_key_order();
        }
        self.sessions.get(&pid)
    }
}

/// Tracking an admitted session and then removing it hands that session back
/// and leaves the tracked sessions as they were.
pub proof fn law_add_remove_round_trip<S>(m: AudioStateManager<S>, pid: u32, name: Seq<char>, s: S)
    requires
        m.spec_admits(pid, name),
    ensures
        m.sessions().insert(pid, s).contains_key(pid),
        m.sessions().insert(pid, s)[pid] == s,
        m.sessions().insert(pid, s).remove(pid) == m.sessions(),
{
    assert(m.sessions().insert(pid, s).remove(pid) =~= m.sessions());
}

/// Every other session is tracked: a process that is not the system, whose
/// name is neither unknown nor blacklisted, and that is not tracked yet is
/// admitted, whatever else its name is (its length, for one).
pub proof fn law_others_admitted<S>(m: AudioStateManager<S>, pid: u32, name: Seq<char>)
    requires
        pid != 0,
        name != UNKNOWN_NAME@,
        !blacklisted(m.blacklist(), name),
        !m.sessions().contains_key(pid),
    ensures
        m.spec_admits(pid, name),
{
}

/// Two names that are both neither unknown nor blacklisted are admitted alike.
pub proof fn law_admission_ignores_other_names<S>(
    m: AudioStateManager<S>,
    pid: u32,
    a: Seq<char>,
    b: Seq<char>,
)
    requires
        a != UNKNOWN_NAME@,
        b != UNKNOWN_NAME@,
        !blacklisted(m.blacklist(), a),
        !blacklisted(m.blacklist(), b),
    ensures
        m.spec_admits(pid, a) == m.spec_admits(pid, b),
{
}

/// A system session, an unknown or blacklisted name, or a process that is
/// already tracked is never tracked, whatever session is offered.
pub proof fn law_refused_not_tracked<S>(m: AudioStateManager<S>, pid: u32, name: Seq<char>)
    requires
        pid == 0 || name == UNKNOWN_NAME@ || blacklisted(m.blacklist(), name)
            || m.sessions().contains_key(pid),
    ensures
        !m.spec_admits(pid, name),
{
}

} // verus!
