use vstd::prelude::*;

verus! {

/// A key press the dashboard reacts to.
#[derive(Clone, Copy, Debug, PartialEq, Eq, Structural)]
pub enum TuiKey {
    CharKey { c: char },
    UpKey,
    DownKey,
    OtherKey,
}

/// What the terminal loop must do after a key press.
#[derive(Clone, Copy, Debug, PartialEq, Eq, Structural)]
pub enum TuiAction {
    /// Leave the dashboard.
    Exit,
    /// Truncate the tailed log file; on success, report it back through
    /// `on_log_cleared`.
    ClearLog,
    /// Keep drawing.
    Continue,
}

/// Dashboard state the keys act on: the log scroll offset.
#[derive(Clone, Copy, Debug, PartialEq, Eq, Structural)]
pub struct TuiState {
    pub log_scroll: u16,
}

impl TuiState {
    pub fn new() -> (s: Self)
        ensures
            s.log_scroll == 0,
    {
        TuiState { log_scroll: 0 }
    }

    /// The dashboard's whole key policy: `q` leaves, the arrows move the
    /// log view one line with saturation at both ends, `c` asks for the
    /// log to be cleared, and every other key does nothing.
    pub fn handle_key(&mut self, key: TuiKey) -> (a: TuiAction)
        ensures
            (key == TuiKey::UpKey ==> a == TuiAction::Continue && final(self).log_scroll as int
                == if old(self).log_scroll > 0 {
                old(self).log_scroll - 1
            } else {
                0
            }),
            (key == TuiKey::DownKey ==> a == TuiAction::Continue && final(self).log_scroll as int
                == if old(self).log_scroll < u16::MAX {
                old(self).log_scroll + 1
            } else {
                u16::MAX as int
            }),
            (key == (TuiKey::CharKey { c: 'q' }) ==> a == TuiAction::Exit && *final(self) == *old(
                self,
            )),
            (key == (TuiKey::CharKey { c: 'c' }) ==> a == TuiAction::ClearLog && *final(self)
                == *old(self)),
            (key matches TuiKey::CharKey { c } && c != 'q' && c != 'c' ==> a == TuiAction::Continue
                && *final(self) == *old(self)),
            (key == TuiKey::OtherKey ==> a == TuiAction::Continue && *final(self) == *old(self)),
    {
        match key {
            TuiKey::CharKey { c } => {
                if c == 'q' {
                    TuiAction::Exit
                } else if c == 'c' {
                    TuiAction::ClearLog
                } else {
                    TuiAction::Continue
                }
            },
            TuiKey::UpKey => {
                if self.log_scroll > 0 {
                    self.log_scroll = self.log_scroll - 1;
                }
                TuiAction::Continue
            },
            TuiKey::DownKey => {
                if self.log_scroll < u16::MAX {
                    self.log_scroll = self.log_scroll + 1;
                }
                TuiAction::Continue
            },
            TuiKey::OtherKey => TuiAction::Continue,
        }
    }

    /// After the log file was actually truncated, the view returns to
    /// the top.
    pub fn on_log_cleared(&mut self)
        ensures
            final(self).log_scroll == 0,
    {
        self.log_scroll = 0;
    }
}

/// The file-name prefix that marks a node log.
pub open spec fn node_log_prefix() -> Seq<u8> {
    seq![
        115u8,  // s
        110u8,  // n
        97u8,  // a
        112u8,  // p
        45u8,  // -
        99u8,  // c
        111u8,  // o
        105u8,  // i
        110u8,  // n
        45u8,  // -
        110u8,  // n
        111u8,  // o
        100u8,  // d
        101u8,  // e
        95u8,  // _
    ]
}

/// The file-name suffix that marks a node log.
pub open spec fn node_log_suffix() -> Seq<u8> {
    seq![46u8, 108u8, 111u8, 103u8]  // ".log"
}

/// A name counts as a node log when it starts with the node-log prefix
/// and ends with the log suffix.
pub open spec fn is_node_log_spec(s: Seq<u8>) -> bool {
    &&& s.len() >= node_log_prefix().len()
    &&& s.take(node_log_prefix().len() as int) == node_log_prefix()
    &&& s.len() >= node_log_suffix().len()
    &&& s.skip(s.len() - node_log_suffix().len()) == node_log_suffix()
}

/// Whether a file name (as bytes) is a node log's.
pub fn is_node_log_name(name: &Vec<u8>) -> (r: bool)
    ensures
        r == is_node_log_spec(name@),
{
    let prefix: Vec<u8> = vec![
        115u8,  // s
        110u8,  // n
        97u8,  // a
        112u8,  // p
        45u8,  // -
        99u8,  // c
        111u8,  // o
        105u8,  // i
        110u8,  // n
        45u8,  // -
        110u8,  // n
        111u8,  // o
        100u8,  // d
        101u8,  // e
        95u8,  // _
    ];
    let suffix: Vec<u8> = vec![46u8, 108u8, 111u8, 103u8];
    proof {
        assert(prefix@ =~= node_log_prefix());
        assert(suffix@ =~= node_log_suffix());
    }
    let n = name.len();
    if n < prefix.len() || n < suffix.len() {
        return false;
    }
    let mut i: usize = 0;
    while i < prefix.len()
        invariant
            i <= prefix@.len(),
            prefix@ == node_log_prefix(),
            n == name@.len(),
            n >= prefix@.len(),
            forall|j: int| 0 <= j < i ==> name@[j] == prefix@[j],
        decreases prefix@.len() - i,
    {
        if name[i] != prefix[i] {
            proof {
                assert(name@.take(node_log_prefix().len() as int)[i as int] != node_log_prefix()[i
                    as int]);
            }
            return false;
        }
        i = i + 1;
    }
    proof {
        assert(name@.take(node_log_prefix().len() as int) =~= node_log_prefix());
    }
    let base = n - suffix.len();
    let mut k: usize = 0;
    while k < suffix.len()
        invariant
            k <= suffix@.len(),
            suffix@ == node_log_suffix(),
            n == name@.len(),
            n >= suffix@.len(),
            base == n - suffix@.len(),
            forall|j: int| 0 <= j < k ==> name@[base + j] == suffix@[j],
        decreases suffix@.len() - k,
    {
        if name[base + k] != suffix[k] {
            proof {
                assert(name@.skip(name@.len() - node_log_suffix().len())[k as int]
                    != node_log_suffix()[k as int]);
            }
            return false;
        }
        k = k + 1;
    }
    proof {
        assert(name@.skip(name@.len() - node_log_suffix().len()) =~= node_log_suffix());
    }
    true
}

/// Which directory entry the dashboard should tail: among entries whose
/// name marks them as node logs, the one with the greatest modification
/// time, a tie going to the entry later in the listing — the choice a
/// stable ascending sort followed by a reversal makes.
pub fn latest_log_index(names: &Vec<Vec<u8>>, mtimes: &Vec<u64>) -> (r: Option<usize>)
    requires
        names@.len() == mtimes@.len(),
    ensures
        (match r {
            Some(i) => {
                &&& i < names@.len()
                &&& is_node_log_spec(names@[i as int]@)
                &&& forall|j: int|
                    0 <= j < names@.len() && is_node_log_spec(#[trigger] names@[j]@)
                        ==> mtimes@[j] <= mtimes@[i as int]
                &&& forall|j: int|
                    i < j < names@.len() && is_node_log_spec(#[trigger] names@[j]@)
                        ==> mtimes@[j] < mtimes@[i as int]
            },
            None => forall|j: int|
                0 <= j < names@.len() ==> !is_node_log_spec(#[trigger] names@[j]@),
        }),
{
    let mut best: Option<usize> = None;
    let mut j: usize = 0;
    let n = names.len();
    while j < n
        invariant
            j <= n,
            n == names@.len(),
            names@.len() == mtimes@.len(),
            (match best {
                Some(i) => {
                    &&& i < j
                    &&& is_node_log_spec(names@[i as int]@)
                    &&& forall|k: int|
                        0 <= k < j && is_node_log_spec(#[trigger] names@[k]@) ==> mtimes@[k]
                            <= mtimes@[i as int]
                    &&& forall|k: int|
                        i < k < j && is_node_log_spec(#[trigger] names@[k]@) ==> mtimes@[k]
                            < mtimes@[i as int]
                },
                None => forall|k: int| 0 <= k < j ==> !is_node_log_spec(#[trigger] names@[k]@),
            }),
        decreases n - j,
    {
        if is_node_log_name(&names[j]) {
            match best {
                None => {
                    best = Some(j);
                },
                Some(i) => {
                    if mtimes[j] >= mtimes[i] {
                        best = Some(j);
                    }
                },
            }
        }
        j = j + 1;
    }
    best
}

} // verus!
