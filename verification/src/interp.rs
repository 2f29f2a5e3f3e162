//! The escape-sequence interpreter: a byte-stream state machine that
//! classifies each incoming byte (printable, control, escape, control
//! sequence) and mutates the screen buffer accordingly.  The scanner
//! state persists across chunks, so a sequence split over two reads is
//! interpreted exactly as an unsplit one.

use vstd::prelude::*;

use crate::screen::{
    blank_cells, ctrl_spec, cursor_col, erase_display_spec, erase_line_spec,
    lemma_grid_bounds, move_cursor_spec, nat_min, nat_sub, print_spec, wf, ScanState, TermView,
    VteTerminal, MAX_CSI_PARAMS, MAX_CSI_PARAM_VALUE,
};

verus! {

/// True of the bytes that print in ground state.
pub open spec fn is_printable(b: u8) -> bool {
    0x20 <= b && b < 0x7f
}

/// The parameter at position `i`, or `d` when the sequence carried none
/// there.
pub open spec fn param_or(ps: Seq<u16>, i: int, d: u16) -> u16 {
    if 0 <= i < ps.len() {
        ps[i]
    } else {
        d
    }
}

/// The pending parameter extended by one decimal digit, saturating at
/// the largest admitted value.
pub open spec fn param_digit(cur: u16, d: u8) -> u16 {
    if cur as int * 10 + d as int <= MAX_CSI_PARAM_VALUE as int {
        (cur as int * 10 + d as int) as u16
    } else {
        MAX_CSI_PARAM_VALUE
    }
}

/// The parameter list with `p` appended, unless the list is full.
pub open spec fn push_param(ps: Seq<u16>, p: u16) -> Seq<u16> {
    if ps.len() < MAX_CSI_PARAMS {
        ps.push(p)
    } else {
        ps
    }
}

/// The value of the parameter being collected; a parameter without
/// digits counts as zero.
pub open spec fn cur_value(v: TermView) -> u16 {
    if v.cur_set {
        v.cur
    } else {
        0
    }
}

/// The complete parameter list at the final byte of a sequence.  The
/// pending parameter is appended when the sequence carried any parameter
/// text at all; a sequence without parameters keeps the list empty, so
/// that absent parameters take their defaults.
pub open spec fn finished_params(v: TermView) -> Seq<u16> {
    if v.cur_set || v.params.len() > 0 {
        push_param(v.params, cur_value(v))
    } else {
        v.params
    }
}

/// The scanner returned to ground with no pending parameters.
pub open spec fn to_ground(v: TermView) -> TermView {
    TermView { scan: ScanState::Ground, params: Seq::<u16>::empty(), cur: 0, cur_set: false, ..v }
}

/// Effect of a dispatched control sequence with final character `c` and
/// parameters `ps`: cursor moves clamp at the edges, absolute positioning
/// is 1-based with default 1, erases default to mode 0, and any other
/// final character is accepted and discarded.
pub open spec fn csi_dispatch_spec(v: TermView, ps: Seq<u16>, c: char) -> TermView {
    let n = param_or(ps, 0, 1) as nat;
    if c == 'A' {
        TermView { y: nat_sub(v.y, n), ..v }
    } else if c == 'B' {
        TermView { y: nat_min(v.y + n, (v.height - 1) as nat), ..v }
    } else if c == 'C' {
        TermView { x: nat_min(v.x + n, (v.width - 1) as nat), ..v }
    } else if c == 'D' {
        TermView { x: nat_sub(v.x, n), ..v }
    } else if c == 'H' || c == 'f' {
        move_cursor_spec(
            v,
            nat_sub(param_or(ps, 0, 1) as nat, 1),
            nat_sub(param_or(ps, 1, 1) as nat, 1),
        )
    } else if c == 'J' {
        erase_display_spec(v, param_or(ps, 0, 0) as nat)
    } else if c == 'K' {
        erase_line_spec(v, param_or(ps, 0, 0) as nat)
    } else {
        v
    }
}

/// One byte while collecting a control sequence: digits extend the
/// pending parameter, `;` completes it, a final byte dispatches the
/// sequence, and any other byte is discarded.
pub open spec fn csi_collect_spec(v: TermView, b: u8) -> TermView {
    if 0x30 <= b && b <= 0x39 {
        TermView { cur: param_digit(cur_value(v), (b - 0x30) as u8), cur_set: true, ..v }
    } else if b == 0x3b {
        TermView { params: push_param(v.params, cur_value(v)), cur: 0, cur_set: false, ..v }
    } else if 0x40 <= b && b <= 0x7e {
        csi_dispatch_spec(to_ground(v), finished_params(v), b as char)
    } else {
        v
    }
}

/// Effect of one byte in any scanner state.  An escape byte always
/// starts a new sequence; C0 controls act in every state; printables
/// print only in ground state.  In escape state `[` opens a control
/// sequence, an intermediate byte keeps the escape sequence open, and
/// any other byte ends it, discarded.
pub open spec fn step(v: TermView, b: u8) -> TermView {
    if b == 0x1b {
        TermView { scan: ScanState::Escape, ..v }
    } else if b < 0x20 {
        ctrl_spec(v, b)
    } else {
        match v.scan {
            ScanState::Ground => if is_printable(b) {
                print_spec(v, b as char)
            } else {
                v
            },
            ScanState::Escape => if b == 0x5b {
                TermView {
                    scan: ScanState::Csi,
                    params: Seq::<u16>::empty(),
                    cur: 0,
                    cur_set: false,
                    ..v
                }
            } else if 0x20 <= b && b < 0x30 {
                // an intermediate byte: the sequence goes on
                v
            } else {
                TermView { scan: ScanState::Ground, ..v }
            },
            ScanState::Csi => csi_collect_spec(v, b),
        }
    }
}

/// Effect of a whole byte sequence, first byte first.
pub open spec fn steps(v: TermView, bytes: Seq<u8>) -> TermView
    decreases bytes.len(),
{
    if bytes.len() == 0 {
        v
    } else {
        steps(step(v, bytes[0]), bytes.drop_first())
    }
}

/// Processing a sequence and then one more byte is one more step.
pub proof fn lemma_steps_snoc(v: TermView, s: Seq<u8>, b: u8)
    ensures
        steps(v, s.push(b)) == step(steps(v, s), b),
    decreases s.len(),
{
    if s.len() == 0 {
        assert(s.push(b)[0] == b);
        assert(s.push(b).drop_first() =~= Seq::<u8>::empty());
        assert(steps(v, s.push(b)) == steps(step(v, b), s.push(b).drop_first()));
        assert(steps(step(v, b), Seq::<u8>::empty()) == step(v, b));
        assert(steps(v, s) == v);
    } else {
        assert(s.push(b)[0] == s[0]);
        assert(s.push(b).drop_first() =~= s.drop_first().push(b));
        assert(steps(v, s.push(b)) == steps(step(v, s[0]), s.drop_first().push(b)));
        assert(steps(v, s) == steps(step(v, s[0]), s.drop_first()));
        lemma_steps_snoc(step(v, s[0]), s.drop_first(), b);
    }
}

/// Law: chunk boundaries do not matter.  Because the scanner state
/// persists, processing two chunks one after the other has exactly the
/// effect of processing their concatenation; a control sequence split
/// across reads is interpreted as an unsplit one.
pub proof fn lemma_steps_append(v: TermView, a: Seq<u8>, b: Seq<u8>)
    ensures
        steps(v, a + b) == steps(steps(v, a), b),
    decreases b.len(),
{
    if b.len() == 0 {
        assert(a + b =~= a);
    } else {
        let b0 = b.drop_last();
        let x = b.last();
        assert(a + b =~= (a + b0).push(x));
        assert(b =~= b0.push(x));
        lemma_steps_append(v, a, b0);
        lemma_steps_snoc(v, a + b0, x);
        lemma_steps_snoc(steps(v, a), b0, x);
    }
}

/// One step keeps the model well formed and the grid size fixed.
pub proof fn lemma_step_wf(v: TermView, b: u8)
    requires
        wf(v),
    ensures
        wf(step(v, b)),
        step(v, b).width == v.width,
        step(v, b).height == v.height,
{
    lemma_grid_bounds(v.x, v.y, v.width, v.height);
    if b == 0x1b {
    } else if b < 0x20 {
        assert(wf(ctrl_spec(v, b)));
    } else {
        match v.scan {
            ScanState::Ground => {
                if is_printable(b) {
                    let v1 = crate::screen::wrap_spec(v);
                    assert(v1.x < v1.width);
                    assert(v1.cells.len() == v.width * v.height);
                    lemma_grid_bounds(v1.x, v1.y, v1.width, v1.height);
                    assert(wf(print_spec(v, b as char)));
                }
            },
            ScanState::Escape => {
            },
            ScanState::Csi => {
                if 0x40 <= b && b <= 0x7e {
                    let g = to_ground(v);
                    let ps = finished_params(v);
                    let c = b as char;
                    assert(wf(csi_dispatch_spec(g, ps, c)));
                }
                assert(wf(csi_collect_spec(v, b)));
            },
        }
    }
}

/// Law: the cursor stays inside the grid.  After any sequence of bytes
/// the model is well formed, the grid size is unchanged, and the
/// observed cursor satisfies `col < width` and `row < height`.
pub proof fn lemma_steps_wf(v: TermView, bytes: Seq<u8>)
    requires
        wf(v),
    ensures
        wf(steps(v, bytes)),
        steps(v, bytes).width == v.width,
        steps(v, bytes).height == v.height,
        cursor_col(steps(v, bytes)) < v.width,
        steps(v, bytes).y < v.height,
    decreases bytes.len(),
{
    if bytes.len() == 0 {
    } else {
        lemma_step_wf(v, bytes[0]);
        lemma_steps_wf(step(v, bytes[0]), bytes.drop_first());
    }
}

/// The byte sequence of a full-erase control sequence, `ESC [ 2 J`.
pub open spec fn full_erase_bytes() -> Seq<u8> {
    seq![0x1bu8, 0x5bu8, 0x32u8, 0x4au8]
}

/// Law: full erase.  From ground state, the sequence `ESC [ 2 J`
/// blanks every cell and puts the cursor at the origin, whatever the
/// buffer held.
pub proof fn lemma_full_erase(v: TermView)
    requires
        wf(v),
        v.scan == ScanState::Ground,
    ensures
        steps(v, full_erase_bytes()).cells == blank_cells(v.width * v.height),
        steps(v, full_erase_bytes()).x == 0,
        steps(v, full_erase_bytes()).y == 0,
{
    let s0 = Seq::<u8>::empty();
    let s1 = s0.push(0x1b);
    let s2 = s1.push(0x5b);
    let s3 = s2.push(0x32);
    let s4 = s3.push(0x4a);
    assert(full_erase_bytes() =~= s4);
    lemma_steps_snoc(v, s3, 0x4a);
    lemma_steps_snoc(v, s2, 0x32);
    lemma_steps_snoc(v, s1, 0x5b);
    lemma_steps_snoc(v, s0, 0x1b);
    assert(steps(v, s0) == v);
    let v1 = step(v, 0x1b);
    let v2 = step(v1, 0x5b);
    let v3 = step(v2, 0x32);
    assert(v2.scan == ScanState::Csi && v2.params =~= Seq::<u16>::empty() && !v2.cur_set);
    assert(v3.cur == 2 && v3.cur_set && v3.params =~= Seq::<u16>::empty());
    assert(finished_params(v3) =~= seq![2u16]);
    assert((0x4a as u8) as char == 'J');
    assert(step(v3, 0x4a) == erase_display_spec(to_ground(v3), 2));
}

/// Law: print and wrap.  Printing `n` printable bytes from the origin
/// leaves the cursor at column `n mod width` and row
/// `min(n div width, height - 1)`, the grid scrolling once the row
/// would pass the bottom.  A positive multiple of the width is left
/// out: there the cursor rests at the pending-wrap column `width`
/// (observed as the last column) on the previous row.
pub proof fn lemma_print_run(v: TermView, bytes: Seq<u8>)
    requires
        wf(v),
        v.scan == ScanState::Ground,
        v.x == 0,
        v.y == 0,
        forall|i: int| 0 <= i < bytes.len() ==> is_printable(#[trigger] bytes[i]),
        bytes.len() as int % (v.width as int) != 0 || bytes.len() == 0,
    ensures
        steps(v, bytes).x == bytes.len() as int % (v.width as int),
        steps(v, bytes).y == nat_min(
            (bytes.len() as int / (v.width as int)) as nat,
            (v.height - 1) as nat,
        ),
{
    lemma_print_run_state(v, bytes);
    let k = bytes.len() as int;
    let w = v.width as int;
    if k == 0 {
        vstd::arithmetic::div_mod::lemma_fundamental_div_mod_converse(0, w, 0, 0);
    } else {
        vstd::arithmetic::div_mod::lemma_fundamental_div_mod(k - 1, w);
        vstd::arithmetic::div_mod::lemma_mod_bound(k - 1, w);
        let q = (k - 1) / w;
        let rr = (k - 1) % w;
        if rr == w - 1 {
            assert(k == (q + 1) * w + 0) by (nonlinear_arith)
                requires
                    k - 1 == w * q + rr,
                    rr == w - 1,
            ;
            vstd::arithmetic::div_mod::lemma_fundamental_div_mod_converse(k, w, q + 1, 0);
            assert(false);
        } else {
            assert(k == q * w + (rr + 1)) by (nonlinear_arith)
                requires
                    k - 1 == w * q + rr,
            ;
            vstd::arithmetic::div_mod::lemma_fundamental_div_mod_converse(k, w, q, rr + 1);
        }
    }
}

/// State after a run of printable bytes from the origin: for a positive
/// count `k` the cursor stands just after the `k`-th written character,
/// at column `(k-1) mod width + 1` and row `min((k-1) div width,
/// height - 1)`.
pub proof fn lemma_print_run_state(v: TermView, bytes: Seq<u8>)
    requires
        wf(v),
        v.scan == ScanState::Ground,
        v.x == 0,
        v.y == 0,
        forall|i: int| 0 <= i < bytes.len() ==> is_printable(#[trigger] bytes[i]),
    ensures
        ({
            let r = steps(v, bytes);
            let k = bytes.len() as int;
            let w = v.width as int;
            &&& wf(r)
            &&& r.scan == ScanState::Ground
            &&& r.width == v.width
            &&& r.height == v.height
            &&& (k == 0 ==> r.x == 0 && r.y == 0)
            &&& (k > 0 ==> r.x == (k - 1) % w + 1 && r.y == nat_min(
                (((k - 1) / w) as nat),
                (v.height - 1) as nat,
            ))
        }),
    decreases bytes.len(),
{
    if bytes.len() == 0 {
    } else {
        let s = bytes.drop_last();
        let b = bytes.last();
        assert(bytes =~= s.push(b));
        assert(forall|i: int| 0 <= i < s.len() ==> is_printable(#[trigger] s[i]));
        lemma_print_run_state(v, s);
        lemma_steps_snoc(v, s, b);
        let r0 = steps(v, s);
        lemma_step_wf(r0, b);
        lemma_grid_bounds(r0.x, r0.y, r0.width, r0.height);
        let k = bytes.len() as int;
        let w = v.width as int;
        let h = v.height as int;
        assert(is_printable(b));
        assert(step(r0, b) == print_spec(r0, b as char));
        if s.len() == 0 {
            vstd::arithmetic::div_mod::lemma_fundamental_div_mod_converse(0, w, 0, 0);
        } else {
            let k0 = s.len() as int;
            vstd::arithmetic::div_mod::lemma_fundamental_div_mod(k0 - 1, w);
            vstd::arithmetic::div_mod::lemma_mod_bound(k0 - 1, w);
            let q = (k0 - 1) / w;
            let rr = (k0 - 1) % w;
            if rr == w - 1 {
                // the previous character filled its row: the new one wraps
                assert(r0.x == w);
                assert(k0 == (q + 1) * w + 0) by (nonlinear_arith)
                    requires
                        k0 - 1 == w * q + rr,
                        rr == w - 1,
                ;
                vstd::arithmetic::div_mod::lemma_fundamental_div_mod_converse(k0, w, q + 1, 0);
            } else {
                assert(r0.x == rr + 1 && rr + 1 < w);
                assert(k0 == q * w + (rr + 1)) by (nonlinear_arith)
                    requires
                        k0 - 1 == w * q + rr,
                ;
                vstd::arithmetic::div_mod::lemma_fundamental_div_mod_converse(k0, w, q, rr + 1);
            }
        }
    }
}

/// The parameter at position `i` of the collected list, or the default.
fn param_at(ps: &Vec<u16>, i: usize, d: u16) -> (r: u16)
    ensures
        r == param_or(ps@, i as int, d),
{
    if i < ps.len() {
        ps[i]
    } else {
        d
    }
}

impl VteTerminal {
    /// Applies a dispatched control sequence to the screen.
    fn csi_dispatch(&mut self, ps: &Vec<u16>, c: u8)
        requires
            wf(old(self)@),
        ensures
            final(self)@ == csi_dispatch_spec(old(self)@, ps@, c as char),
            wf(final(self)@),
    {
        let n0 = param_at(ps, 0, 1);
        if c == 0x41 {
            // 'A': up
            let n = n0 as usize;
            self.cursor_y = if n <= self.cursor_y {
                self.cursor_y - n
            } else {
                0
            };
        } else if c == 0x42 {
            // 'B': down
            let n = n0 as usize;
            let cap = self.height - 1;
            self.cursor_y = if self.cursor_y >= cap {
                cap
            } else if n <= cap - self.cursor_y {
                self.cursor_y + n
            } else {
                cap
            };
        } else if c == 0x43 {
            // 'C': right
            let n = n0 as usize;
            let cap = self.width - 1;
            self.cursor_x = if self.cursor_x >= cap {
                cap
            } else if n <= cap - self.cursor_x {
                self.cursor_x + n
            } else {
                cap
            };
        } else if c == 0x44 {
            // 'D': left
            let n = n0 as usize;
            self.cursor_x = if n <= self.cursor_x {
                self.cursor_x - n
            } else {
                0
            };
        } else if c == 0x48 || c == 0x66 {
            // 'H' or 'f': absolute position, 1-based
            let row = n0 as usize;
            let col = param_at(ps, 1, 1) as usize;
            self.move_cursor(
                if row > 0 {
                    row - 1
                } else {
                    0
                },
                if col > 0 {
                    col - 1
                } else {
                    0
                },
            );
        } else if c == 0x4a {
            // 'J': erase in display
            let mode = param_at(ps, 0, 0) as usize;
            self.erase_in_display(mode);
        } else if c == 0x4b {
            // 'K': erase in line
            let mode = param_at(ps, 0, 0) as usize;
            self.erase_in_line(mode);
        }
        proof {
            assert(self@ =~= csi_dispatch_spec(old(self)@, ps@, c as char));
        }
    }

    /// Handles one byte while a control sequence is being collected.
    fn csi_collect(&mut self, b: u8)
        requires
            wf(old(self)@),
            0x20 <= b,
            b != 0x1b,
        ensures
            final(self)@ == csi_collect_spec(old(self)@, b),
            wf(final(self)@),
    {
        if 0x30 <= b && b <= 0x39 {
            let base: u16 = if self.cur_set {
                self.cur
            } else {
                0
            };
            let wide: u32 = base as u32 * 10 + (b - 0x30) as u32;
            self.cur = if wide <= MAX_CSI_PARAM_VALUE as u32 {
                wide as u16
            } else {
                MAX_CSI_PARAM_VALUE
            };
            self.cur_set = true;
        } else if b == 0x3b {
            let pval: u16 = if self.cur_set {
                self.cur
            } else {
                0
            };
            if self.params.len() < MAX_CSI_PARAMS {
                self.params.push(pval);
            }
            self.cur = 0;
            self.cur_set = false;
        } else if 0x40 <= b && b <= 0x7e {
            let ghost entry = self@;
            let pval: u16 = if self.cur_set {
                self.cur
            } else {
                0
            };
            let append = self.cur_set || self.params.len() > 0;
            let mut ps: Vec<u16> = Vec::new();
            let mut i: usize = 0;
            while i < self.params.len()
                invariant
                    i <= self.params@.len(),
                    ps@ == self.params@.take(i as int),
                    self == old(self),
                decreases self.params@.len() - i,
            {
                let p = self.params[i];
                ps.push(p);
                i += 1;
                proof {
                    assert(ps@ =~= self.params@.take(i as int));
                }
            }
            proof {
                assert(ps@ =~= entry.params);
            }
            if append && ps.len() < MAX_CSI_PARAMS {
                ps.push(pval);
            }
            self.params = Vec::new();
            self.cur = 0;
            self.cur_set = false;
            self.scan = ScanState::Ground;
            proof {
                assert(self@ =~= to_ground(entry));
                assert(ps@ =~= finished_params(entry));
            }
            self.csi_dispatch(&ps, b);
        }
        proof {
            assert(self@ =~= csi_collect_spec(old(self)@, b));
        }
    }

    /// Feeds one byte to the scanner.
    pub fn advance_byte(&mut self, b: u8)
        requires
            wf(old(self)@),
        ensures
            final(self)@ == step(old(self)@, b),
            wf(final(self)@),
    {
        if b == 0x1b {
            self.scan = ScanState::Escape;
        } else if b < 0x20 {
            self.execute_ctrl(b);
        } else {
            match self.scan {
                ScanState::Ground => {
                    if b < 0x7f {
                        self.print_char(b as char);
                    }
                },
                ScanState::Escape => {
                    if b == 0x5b {
                        self.scan = ScanState::Csi;
                        self.params = Vec::new();
                        self.cur = 0;
                        self.cur_set = false;
                        proof {
                            assert(self@.params =~= Seq::<u16>::empty());
                        }
                    } else if !(0x20 <= b && b < 0x30) {
                        self.scan = ScanState::Ground;
                    }
                },
                ScanState::Csi => {
                    self.csi_collect(b);
                },
            }
        }
        proof {
            assert(self@ =~= step(old(self)@, b));
        }
    }

    /// Feeds a chunk of bytes to the interpreter, one byte at a time.
    /// The scanner state persists: processing two chunks one after the
    /// other equals processing their concatenation.
    pub fn process(&mut self, data: &[u8])
        requires
            wf(old(self)@),
        ensures
            final(self)@ == steps(old(self)@, data@),
            wf(final(self)@),
    {
        let ghost orig = self@;
        let n = data.len();
        let mut i: usize = 0;
        proof {
            assert(data@.take(0) =~= Seq::<u8>::empty());
        }
        while i < n
            invariant
                i <= n,
                n == data@.len(),
                wf(self@),
                self@ == steps(orig, data@.take(i as int)),
            decreases n - i,
        {
            let b = data[i];
            self.advance_byte(b);
            i += 1;
            proof {
                assert(data@.take(i as int) =~= data@.take(i - 1).push(data@[i - 1]));
                lemma_steps_snoc(orig, data@.take(i - 1), data@[i - 1]);
            }
        }
        proof {
            assert(data@.take(n as int) =~= data@);
        }
    }
}

} // verus!

