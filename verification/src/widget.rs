//! The terminal widget's core state: the text shown in the output area
//! and the command history with its recall position.  Rendering and
//! keystroke capture belong to the presentation layer; this state and
//! its bookkeeping are what that layer drives.

use std::collections::VecDeque;

use vstd::prelude::*;

use crate::text::chars_to_string;

verus! {

/// The most commands the history retains; adding beyond it drops the
/// oldest entry.
pub const HISTORY_SIZE: usize = 1000;

/// The decimal digit characters of `n`, most significant first.
pub open spec fn dec_str(n: nat) -> Seq<char>
    decreases n,
{
    if n < 10 {
        seq![((0x30 + n) as u8) as char]
    } else {
        dec_str(n / 10).push(((0x30 + n % 10) as u8) as char)
    }
}

/// The decimal rendering of `n`.
pub fn u64_dec(n: u64) -> (v: Vec<char>)
    ensures
        v@ == dec_str(n as nat),
    decreases n,
{
    if n < 10 {
        let mut v: Vec<char> = Vec::new();
        v.push((0x30u8 + n as u8) as char);
        proof {
            assert(v@ =~= dec_str(n as nat));
        }
        v
    } else {
        let mut v = u64_dec(n / 10);
        v.push((0x30u8 + (n % 10) as u8) as char);
        proof {
            assert(v@ =~= dec_str(n as nat));
        }
        v
    }
}

/// The first `k` history entries rendered one per line, each numbered
/// from 1: `1: newest`, `2: next`, and so on.
pub open spec fn listing_text(h: Seq<Seq<char>>, k: nat) -> Seq<char>
    decreases k,
{
    if k == 0 {
        Seq::empty()
    } else {
        listing_text(h, (k - 1) as nat) + dec_str(k) + seq![':', ' '] + h[k - 1] + seq!['\n']
    }
}

/// The history with `c` put in front, the oldest entry dropped when the
/// capacity would be passed.
pub open spec fn pushed_history(h: Seq<String>, c: String) -> Seq<String> {
    let h2 = seq![c] + h;
    if h2.len() <= HISTORY_SIZE {
        h2
    } else {
        h2.take(HISTORY_SIZE as int)
    }
}

pub struct TerminalWidget {
    /// The text shown in the output area.
    pub output: String,
    /// Accepted commands, most recent first.
    pub history: VecDeque<String>,
    /// Recall position into `history`; `None` when nothing is recalled.
    pub history_index: Option<usize>,
}

impl TerminalWidget {
    /// Well-formedness: the history respects the capacity and the
    /// recall position points into it.
    pub open spec fn wf(&self) -> bool {
        &&& self.history@.len() <= HISTORY_SIZE
        &&& match self.history_index {
            Some(i) => i < self.history@.len(),
            None => true,
        }
    }

    /// An empty widget: no output, no history, nothing recalled.
    pub fn new() -> (w: Self)
        ensures
            w.output@ == Seq::<char>::empty(),
            w.history@ == Seq::<String>::empty(),
            w.history_index is None,
            w.wf(),
    {
        let w = TerminalWidget {
            output: String::new(),
            history: VecDeque::with_capacity(HISTORY_SIZE),
            history_index: None,
        };
        proof {
            assert(w.history@ =~= Seq::<String>::empty());
        }
        w
    }

    /// Replaces the output text.
    pub fn set_output(&mut self, output: &str)
        ensures
            final(self).output@ == output@,
            final(self).history@ == old(self).history@,
            final(self).history_index == old(self).history_index,
    {
        self.output = output.to_owned();
    }

    /// Records an accepted command as the newest history entry, drops
    /// the oldest entry beyond the capacity, and clears the recall
    /// position.
    pub fn add_to_history(&mut self, command: String)
        requires
            old(self).wf(),
        ensures
            final(self).wf(),
            final(self).history@ == pushed_history(old(self).history@, command),
            final(self).history_index is None,
            final(self).output@ == old(self).output@,
    {
        self.history.push_front(command);
        if self.history.len() > HISTORY_SIZE {
            self.history.pop_back();
            proof {
                assert(self.history@ =~= pushed_history(old(self).history@, command));
            }
        }
        self.history_index = None;
        proof {
            assert(self.history@ =~= pushed_history(old(self).history@, command));
        }
    }

    /// Steps the recall position one entry older and returns that
    /// command; returns nothing (and leaves the position alone) when
    /// the history is exhausted or empty.
    pub fn get_previous_command(&mut self) -> (r: Option<String>)
        requires
            old(self).wf(),
        ensures
            final(self).wf(),
            final(self).history@ == old(self).history@,
            final(self).output@ == old(self).output@,
            ({
                let h = old(self).history@;
                let next: int = match old(self).history_index {
                    None => 0,
                    Some(i) => i + 1,
                };
                if next < h.len() {
                    &&& r == Some(h[next])
                    &&& final(self).history_index == Some(next as usize)
                } else {
                    &&& r is None
                    &&& final(self).history_index == old(self).history_index
                }
            }),
    {
        if self.history.len() == 0 {
            return None;
        }
        let index: usize = match self.history_index {
            Some(i) => i + 1,
            None => 0,
        };
        if index < self.history.len() {
            self.history_index = Some(index);
            Some(self.history[index].clone())
        } else {
            None
        }
    }

    /// Steps the recall position one entry newer and returns that
    /// command; past the newest entry it clears the position and
    /// returns an empty line, and with no position it returns nothing.
    pub fn get_next_command(&mut self) -> (r: Option<String>)
        requires
            old(self).wf(),
        ensures
            final(self).wf(),
            final(self).history@ == old(self).history@,
            final(self).output@ == old(self).output@,
            ({
                let h = old(self).history@;
                match old(self).history_index {
                    None => r is None && final(self).history_index is None,
                    Some(i) => if i > 0 {
                        &&& r == Some(h[i - 1])
                        &&& final(self).history_index == Some((i - 1) as usize)
                    } else {
                        &&& r matches Some(s) && s@ == Seq::<char>::empty()
                        &&& final(self).history_index is None
                    },
                }
            }),
    {
        match self.history_index {
            Some(index) => {
                if index > 0 {
                    self.history_index = Some(index - 1);
                    Some(self.history[index - 1].clone())
                } else {
                    self.history_index = None;
                    Some(String::new())
                }
            },
            None => None,
        }
    }

    /// The tracked history rendered as numbered lines, the most recent
    /// command first.
    pub fn history_listing(&self) -> (out: String)
        requires
            self.wf(),
        ensures
            out@ == listing_text(
                self.history@.map_values(|s: String| s@),
                self.history@.len(),
            ),
    {
        let ghost hv = self.history@.map_values(|s: String| s@);
        let mut out = String::new();
        let mut i: usize = 0;
        proof {
            assert(out@ =~= listing_text(hv, 0));
        }
        while i < self.history.len()
            invariant
                self.wf(),
                i <= self.history@.len(),
                hv == self.history@.map_values(|s: String| s@),
                out@ == listing_text(hv, i as nat),
            decreases self.history@.len() - i,
        {
            let num = u64_dec(i as u64 + 1);
            let num_s = chars_to_string(&num);
            out.append(num_s.as_str());
            out.append(": ");
            let entry = self.history[i].clone();
            out.append(entry.as_str());
            out.append("\n");
            i += 1;
            proof {
                reveal_strlit(": ");
                reveal_strlit("\n");
                assert(hv[i - 1] == self.history@[i - 1]@);
                assert(out@ =~= listing_text(hv, i as nat));
            }
        }
        out
    }
}

} // verus!
