//! Signals: messages sent to a workflow run or published by it, stored until
//! they are consumed.
use vstd::prelude::*;

use crate::keyed::Keyed;
use crate::workflow::clone_opt_string;

verus! {

/// Which way a signal travels.
#[derive(Clone, Copy, Debug, PartialEq, Eq, Structural)]
pub enum SignalDirection {
    FromWorkflow,
    ToWorkflow,
}

impl SignalDirection {
    /// The variant's name: `FromWorkflow` or `ToWorkflow`.
    pub fn to_string(&self) -> (s: String)
        ensures
            *self == SignalDirection::FromWorkflow ==> s@ == "FromWorkflow"@,
            *self == SignalDirection::ToWorkflow ==> s@ == "ToWorkflow"@,
    {
        match self {
            SignalDirection::FromWorkflow => String::from_str("FromWorkflow"),
            SignalDirection::ToWorkflow => String::from_str("ToWorkflow"),
        }
    }
}

/// A stored signal. `data` is the signal's payload as JSON text; times are
/// milliseconds since the UNIX epoch.
#[derive(Debug, PartialEq)]
pub struct Signal {
    pub id: String,
    pub workflow_name: String,
    pub instance_id: String,
    pub signal_name: String,
    pub sent_at: u64,
    pub processed_at: Option<u64>,
    pub data: String,
    pub processed: bool,
    pub target_or_source_run_id: Option<String>,
    pub direction: SignalDirection,
}

impl Clone for Signal {
    fn clone(&self) -> (res: Self)
        ensures
            res == *self,
    {
        Signal {
            id: self.id.clone(),
            workflow_name: self.workflow_name.clone(),
            instance_id: self.instance_id.clone(),
            signal_name: self.signal_name.clone(),
            sent_at: self.sent_at,
            processed_at: match &self.processed_at {
                Some(t) => Some(*t),
                None => None,
            },
            data: self.data.clone(),
            processed: self.processed,
            target_or_source_run_id: clone_opt_string(&self.target_or_source_run_id),
            direction: self.direction,
        }
    }
}

impl Keyed for Signal {
    open spec fn key_of(&self) -> Seq<char> {
        self.id@
    }

    fn key(&self) -> (k: &str) {
        self.id.as_str()
    }
}

/// The id of a signal: its name, the workflow's name and the instance id,
/// joined by hyphens.
pub open spec fn signal_id_text(signal_name: Seq<char>, workflow_name: Seq<char>, instance_id: Seq<char>) -> Seq<char> {
    signal_name + "-"@ + workflow_name + "-"@ + instance_id
}

/// Builds the id of a signal for an instance (see [`signal_id_text`]).
pub fn create_signal_id(signal_name: &str, workflow_name: &str, instance_id: &str) -> (id: String)
    ensures
        id@ == signal_id_text(signal_name@, workflow_name@, instance_id@),
{
    let mut id = String::from_str(signal_name);
    id.append("-");
    id.append(workflow_name);
    id.append("-");
    id.append(instance_id);
    id
}

/// `s` holds the separator `::` somewhere.
pub open spec fn has_path_separator(s: Seq<char>) -> bool {
    exists|i: int| 0 <= i < s.len() - 1 && #[trigger] s[i] == ':' && s[i + 1] == ':'
}

/// The last piece of `s` when it is split at `::` from left to right (the
/// pieces that `str::split("::")` yields): `s` itself when it holds no
/// separator.
pub open spec fn last_path_segment(s: Seq<char>) -> Seq<char>
    decreases s.len(),
{
    if !has_path_separator(s) {
        s
    } else if s[0] == ':' && s[1] == ':' {
        last_path_segment(s.subrange(2, s.len() as int))
    } else {
        last_path_segment(s.subrange(1, s.len() as int))
    }
}

/// Unfolds `last_path_segment` one step at the front of `s`.
proof fn lemma_last_segment_step(s: Seq<char>)
    requires
        s.len() >= 2,
    ensures
        s[0] == ':' && s[1] == ':' ==> has_path_separator(s) && last_path_segment(s)
            == last_path_segment(s.subrange(2, s.len() as int)),
        !(s[0] == ':' && s[1] == ':') ==> (has_path_separator(s) == has_path_separator(
            s.subrange(1, s.len() as int),
        )) && (has_path_separator(s) ==> last_path_segment(s) == last_path_segment(
            s.subrange(1, s.len() as int),
        )),
{
    let t = s.subrange(1, s.len() as int);
    if s[0] == ':' && s[1] == ':' {
        assert(s[0int] == ':' && s[0int + 1] == ':');
    } else {
        if has_path_separator(s) {
            let i = choose|i: int| 0 <= i < s.len() - 1 && #[trigger] s[i] == ':' && s[i + 1] == ':';
            assert(i >= 1);
            assert(t[i - 1] == ':' && t[(i - 1) + 1] == ':');
        }
        if has_path_separator(t) {
            let i = choose|i: int| 0 <= i < t.len() - 1 && #[trigger] t[i] == ':' && t[i + 1] == ':';
            assert(s[i + 1] == ':' && s[(i + 1) + 1] == ':');
        }
    }
}

/// Where the last piece of `full_name`, split at `::`, begins (a
/// character position).
pub fn last_segment_start(full_name: &str) -> (start: usize)
    ensures
        start <= full_name@.len(),
        full_name@.subrange(start as int, full_name@.len() as int) == last_path_segment(full_name@),
{
    let n = full_name.unicode_len();
    let ghost s = full_name@;
    let mut start: usize = 0;
    let mut i: usize = 0;
    assert(s.subrange(0, n as int) =~= s);
    while i < n && i + 1 < n
        invariant
            n == s.len(),
            s == full_name@,
            start <= n,
            i <= n,
            has_path_separator(s.subrange(i as int, n as int)) ==> last_path_segment(s)
                == last_path_segment(s.subrange(i as int, n as int)),
            !has_path_separator(s.subrange(i as int, n as int)) ==> last_path_segment(s)
                == s.subrange(start as int, n as int),
        decreases n - i,
    {
        let ghost rest = s.subrange(i as int, n as int);
        proof {
            lemma_last_segment_step(rest);
        }
        if full_name.get_char(i) == ':' && full_name.get_char(i + 1) == ':' {
            assert(rest.subrange(2, rest.len() as int) =~= s.subrange(i + 2, n as int));
            start = i + 2;
            i = i + 2;
        } else {
            assert(rest.subrange(1, rest.len() as int) =~= s.subrange(i + 1, n as int));
            i = i + 1;
        }
    }
    assert(!has_path_separator(s.subrange(i as int, n as int)));
    start
}

/// The name of a type without its module path: the last piece of its full
/// path split at `::`.
pub fn short_type_name(full_name: &str) -> (name: String)
    ensures
        name@ == last_path_segment(full_name@),
{
    let start = last_segment_start(full_name);
    String::from_str(full_name.substring_char(start, full_name.unicode_len()))
}

/// The id of a signal of the type whose full path is `full_type_name`: the
/// type's short name (see [`short_type_name`]), the workflow's name and the
/// instance id, joined by hyphens. A signal whose name is its type's short
/// name gets this id whether it is made from the type or from a value.
pub fn signal_id_for_type(full_type_name: &str, workflow_name: &str, instance_id: &str) -> (id: String)
    ensures
        id@ == signal_id_text(last_path_segment(full_type_name@), workflow_name@, instance_id@),
{
    let name = short_type_name(full_type_name);
    create_signal_id(name.as_str(), workflow_name, instance_id)
}

impl Signal {
    /// A signal under the id `id`, sent at `now` and not yet processed.
    pub fn with_id(
        id: String,
        instance_id: &str,
        signal_name: &str,
        workflow_name: &str,
        direction: SignalDirection,
        data: String,
        target_or_source_run_id: Option<String>,
        now: u64,
    ) -> (s: Signal)
        ensures
            s.id == id,
            s.instance_id@ == instance_id@,
            s.signal_name@ == signal_name@,
            s.workflow_name@ == workflow_name@,
            s.direction == direction,
            s.data == data,
            s.sent_at == now,
            s.processed_at is None,
            !s.processed,
            s.target_or_source_run_id == target_or_source_run_id,
    {
        Signal {
            id,
            workflow_name: String::from_str(workflow_name),
            instance_id: String::from_str(instance_id),
            signal_name: String::from_str(signal_name),
            sent_at: now,
            processed_at: None,
            data,
            processed: false,
            target_or_source_run_id,
            direction,
        }
    }
}

} // verus!
