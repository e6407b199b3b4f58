//! The registry of open windows: each has a label, the host's handle on its
//! worker, and its table of pending editor requests.
use vstd::prelude::*;
use crate::bridge::{
    relayed, reply_accepted, InternalScriptRunEditorRequest, InternalScriptRunEditorResponse,
    ScriptRunEditorRequest, ScriptRunEditorResponse, WindowScriptState,
};
use crate::text::same_text;

verus! {

/// The digit for `d`, below ten.
pub open spec fn digit_char(d: nat) -> char {
    seq!['0', '1', '2', '3', '4', '5', '6', '7', '8', '9'][d as int]
}

/// The decimal digits of `n`, most significant first.
pub open spec fn decimal(n: nat) -> Seq<char>
    decreases n,
{
    if n < 10 {
        seq![digit_char(n)]
    } else {
        decimal(n / 10).push(digit_char(n % 10))
    }
}

/// The label of the window numbered `id`.
pub open spec fn window_label(id: nat) -> Seq<char> {
    seq!['m', 'a', 'i', 'n', '_'] + decimal(id)
}

proof fn lemma_digit_char_injective(a: nat, b: nat)
    requires
        a < 10,
        b < 10,
        digit_char(a) == digit_char(b),
    ensures
        a == b,
{
    let d = seq!['0', '1', '2', '3', '4', '5', '6', '7', '8', '9'];
    assert(d[0] == '0' && d[1] == '1' && d[2] == '2' && d[3] == '3' && d[4] == '4' && d[5] == '5'
        && d[6] == '6' && d[7] == '7' && d[8] == '8' && d[9] == '9');
}

proof fn lemma_decimal_len(n: nat)
    ensures
        decimal(n).len() >= 1,
        n >= 10 ==> decimal(n).len() >= 2,
    decreases n,
{
    if n >= 10 {
        lemma_decimal_len(n / 10);
    }
}

/// Different numbers have different decimal forms.
pub proof fn lemma_decimal_injective(a: nat, b: nat)
    requires
        decimal(a) == decimal(b),
    ensures
        a == b,
    decreases a,
{
    lemma_decimal_len(a);
    lemma_decimal_len(b);
    if a < 10 && b < 10 {
        assert(decimal(a) == seq![digit_char(a)]);
        assert(decimal(b) == seq![digit_char(b)]);
        assert(seq![digit_char(a)][0] == digit_char(a));
        assert(seq![digit_char(b)][0] == digit_char(b));
        assert(digit_char(a) == digit_char(b));
        lemma_digit_char_injective(a, b);
    } else if a >= 10 && b >= 10 {
        let da = decimal(a);
        let db = decimal(b);
        assert(da == decimal(a / 10).push(digit_char(a % 10)));
        assert(db == decimal(b / 10).push(digit_char(b % 10)));
        assert(da.last() == db.last());
        lemma_digit_char_injective(a % 10, b % 10);
        assert(da.drop_last() =~= decimal(a / 10));
        assert(db.drop_last() =~= decimal(b / 10));
        lemma_decimal_injective(a / 10, b / 10);
        assert(a == 10 * (a / 10) + a % 10);
        assert(b == 10 * (b / 10) + b % 10);
    }
}

/// Windows with different numbers have different labels.
pub proof fn lemma_window_label_injective(a: nat, b: nat)
    requires
        window_label(a) == window_label(b),
    ensures
        a == b,
{
    let p = seq!['m', 'a', 'i', 'n', '_'];
    assert(window_label(a).subrange(5, window_label(a).len() as int) =~= decimal(a));
    assert(window_label(b).subrange(5, window_label(b).len() as int) =~= decimal(b));
    lemma_decimal_injective(a, b);
}

/// The digit for `d` as a string.
fn digit_text(d: u32) -> (r: &'static str)
    requires
        d < 10,
    ensures
        r@ == seq![digit_char(d as nat)],
{
    proof {
        reveal_strlit("0123456789");
    }
    let digits: &'static str = "0123456789";
    assert(digits@ =~= seq!['0', '1', '2', '3', '4', '5', '6', '7', '8', '9']);
    let r = digits.substring_char(d as usize, d as usize + 1);
    assert(r@ =~= seq![digit_char(d as nat)]);
    r
}

/// The decimal digits of `n`.
pub fn decimal_string(n: u32) -> (r: String)
    ensures
        r@ == decimal(n as nat),
    decreases n,
{
    if n < 10 {
        String::from_str(digit_text(n))
    } else {
        let mut s = decimal_string(n / 10);
        s.append(digit_text(n % 10));
        s
    }
}

/// The label of the window numbered `id`.
pub fn make_window_label(id: u32) -> (r: String)
    ensures
        r@ == window_label(id as nat),
{
    proof {
        reveal_strlit("main_");
        assert("main_"@ =~= seq!['m', 'a', 'i', 'n', '_']);
    }
    String::from_str("main_").concat(decimal_string(id).as_str())
}

/// One open window: its number and label, the host's handle on its worker
/// (`H`), and its table of pending editor requests whose reply slots are `S`.
pub struct WindowRecord<H, S> {
    pub id: u32,
    pub label: String,
    pub handle: H,
    pub script_state: WindowScriptState<S>,
}

/// The open windows.
pub struct Windows<H, S> {
    window_states: Vec<WindowRecord<H, S>>,
    last_window_id: u32,
}

/// Some window of `recs` has the label `label`.
pub open spec fn has_label<H, S>(recs: Seq<WindowRecord<H, S>>, label: Seq<char>) -> bool {
    exists|i: int| 0 <= i < recs.len() && recs[i].label@ == label
}

/// `after` is `before` with the table of window `i` replaced by `table`.
pub open spec fn table_replaced<H, S>(
    before: Seq<WindowRecord<H, S>>,
    after: Seq<WindowRecord<H, S>>,
    i: int,
    table: WindowScriptState<S>,
) -> bool {
    &&& after.len() == before.len()
    &&& after[i].id == before[i].id
    &&& after[i].label == before[i].label
    &&& after[i].handle == before[i].handle
    &&& after[i].script_state == table
    &&& forall|k: int| 0 <= k < before.len() && k != i ==> after[k] == before[k]
}

impl<H, S> Windows<H, S> {
    /// The open windows, in the order they were opened.
    pub closed spec fn records(&self) -> Seq<WindowRecord<H, S>> {
        self.window_states@
    }

    /// The number of the window opened last.
    pub closed spec fn last_id(&self) -> u32 {
        self.last_window_id
    }

    /// Each window is labelled after its number, numbers are distinct and
    /// given out in increasing order, and every request table is well formed.
    pub open spec fn wf(&self) -> bool {
        &&& forall|i: int|
            0 <= i < self.records().len() ==> {
                &&& #[trigger] self.records()[i].label@ == window_label(self.records()[i].id as nat)
                &&& 0 < self.records()[i].id <= self.last_id()
                &&& self.records()[i].script_state.wf()
            }
        &&& forall|i: int, j: int|
            0 <= i < self.records().len() && 0 <= j < self.records().len() && i != j
                ==> self.records()[i].id != self.records()[j].id
    }

    /// No window is open.
    pub fn new() -> (r: Windows<H, S>)
        ensures
            r.wf(),
            r.records().len() == 0,
            r.last_id() == 0,
    {
        Windows { window_states: Vec::new(), last_window_id: 0 }
    }

    /// Opens a window with the next number and an empty request table, and
    /// returns its label; the handle comes back once every number is used.
    pub fn create_window(&mut self, handle: H) -> (r: Result<String, H>)
        requires
            old(self).wf(),
        ensures
            final(self).wf(),
            match r {
                Ok(label) => {
                    &&& old(self).last_id() < u32::MAX
                    &&& final(self).last_id() == old(self).last_id() + 1
                    &&& label@ == window_label(final(self).last_id() as nat)
                    &&& !has_label(old(self).records(), label@)
                    &&& final(self).records().len() == old(self).records().len() + 1
                    &&& final(self).records().drop_last() == old(self).records()
                    &&& final(self).records().last().label@ == label@
                    &&& final(self).records().last().handle == handle
                    &&& final(self).records().last().script_state.pending().len() == 0
                },
                Err(h) => {
                    &&& h == handle
                    &&& old(self).last_id() == u32::MAX
                    &&& *final(self) == *old(self)
                },
            },
    {
        if self.last_window_id == u32::MAX {
            return Err(handle);
        }
        self.last_window_id = self.last_window_id + 1;
        let id = self.last_window_id;
        let label = make_window_label(id);
        let ghost before = self.window_states@;
        proof {
            assert(before == old(self).records());
            assert forall|i: int| 0 <= i < before.len() implies before[i].label@ != label@ by {
                assert(old(self).records()[i].label@ == window_label(
                    old(self).records()[i].id as nat,
                ));
                if before[i].label@ == label@ {
                    lemma_window_label_injective(before[i].id as nat, id as nat);
                }
            }
        }
        let table: WindowScriptState<S> = WindowScriptState::new();
        self.window_states.push(WindowRecord { id, label: label.clone(), handle, script_state: table });
        assert(self.window_states@.drop_last() =~= before);
        Ok(label)
    }

    /// The position of the window labelled `label`.
    fn find(&self, label: &str) -> (r: Option<usize>)
        requires
            self.wf(),
        ensures
            match r {
                Some(i) => i < self.records().len() && self.records()[i as int].label@ == label@,
                None => !has_label(self.records(), label@),
            },
    {
        let mut i: usize = 0;
        while i < self.window_states.len()
            invariant
                i <= self.window_states@.len(),
                forall|k: int| 0 <= k < i ==> self.window_states@[k].label@ != label@,
            decreases self.window_states@.len() - i,
        {
            if same_text(self.window_states[i].label.as_str(), label) {
                return Some(i);
            }
            i += 1;
        }
        None
    }

    /// Two windows never share a label.
    pub proof fn lemma_labels_unique(&self, i: int, j: int)
        requires
            self.wf(),
            0 <= i < self.records().len(),
            0 <= j < self.records().len(),
            self.records()[i].label@ == self.records()[j].label@,
        ensures
            i == j,
    {
        lemma_window_label_injective(self.records()[i].id as nat, self.records()[j].id as nat);
    }

    /// The host's handle on the worker of the window labelled `label`.
    pub fn handle(&self, label: &str) -> (r: Option<&H>)
        requires
            self.wf(),
        ensures
            r is None <==> !has_label(self.records(), label@),
            r matches Some(h) ==> exists|i: int|
                0 <= i < self.records().len() && self.records()[i].label@ == label@ && *h
                    == self.records()[i].handle,
    {
        match self.find(label) {
            Some(i) => Some(&self.window_states[i].handle),
            None => None,
        }
    }

    /// Relays what a run sent to the window labelled `label`, through that
    /// window's request table; fails where no such window is open.
    pub fn relay(&mut self, label: &str, request: InternalScriptRunEditorRequest<S>) -> (r: Result<
        ScriptRunEditorRequest,
        String,
    >)
        requires
            old(self).wf(),
        ensures
            final(self).wf(),
            final(self).last_id() == old(self).last_id(),
            !has_label(old(self).records(), label@) ==> r is Err && *final(self) == *old(self),
            has_label(old(self).records(), label@) ==> exists|i: int|
                0 <= i < old(self).records().len() && old(self).records()[i].label@ == label@
                    && table_replaced(
                    old(self).records(),
                    final(self).records(),
                    i,
                    final(self).records()[i].script_state,
                ) && relayed(
                    old(self).records()[i].script_state,
                    final(self).records()[i].script_state,
                    request,
                    r,
                ),
    {
        match self.find(label) {
            None => Err(String::from_str("Window should have script state")),
            Some(i) => {
                let ghost before = self.window_states@;
                let mut rec = self.window_states.remove(i);
                let r = rec.script_state.relay(request);
                self.window_states.insert(i, rec);
                proof {
                    let after = self.window_states@;
                    assert forall|k: int| 0 <= k < after.len() implies #[trigger] after[k].label@
                        == window_label(after[k].id as nat) && 0 < after[k].id <= self.last_window_id
                        && after[k].script_state.wf() by {
                        if k != i {
                            assert(after[k] == before[k]);
                        }
                    }
                    assert forall|a: int, b: int|
                        0 <= a < after.len() && 0 <= b < after.len() && a != b implies after[a].id
                        != after[b].id by {
                        assert(after[a].id == before[a].id);
                        assert(after[b].id == before[b].id);
                    }
                }
                r
            },
        }
    }

    /// Hands the editor's reply to the table of the window labelled `label`;
    /// fails where no such window is open.
    pub fn accept_reply(&mut self, label: &str, reply: ScriptRunEditorResponse) -> (r: Result<
        (S, Result<InternalScriptRunEditorResponse, String>),
        String,
    >)
        requires
            old(self).wf(),
        ensures
            final(self).wf(),
            final(self).last_id() == old(self).last_id(),
            !has_label(old(self).records(), label@) ==> r is Err && *final(self) == *old(self),
            has_label(old(self).records(), label@) ==> exists|i: int|
                0 <= i < old(self).records().len() && old(self).records()[i].label@ == label@
                    && table_replaced(
                    old(self).records(),
                    final(self).records(),
                    i,
                    final(self).records()[i].script_state,
                ) && reply_accepted(
                    old(self).records()[i].script_state,
                    final(self).records()[i].script_state,
                    reply,
                    r,
                ),
    {
        match self.find(label) {
            None => Err(String::from_str("Window should have script state")),
            Some(i) => {
                let ghost before = self.window_states@;
                let mut rec = self.window_states.remove(i);
                let r = rec.script_state.accept_reply(reply);
                self.window_states.insert(i, rec);
                proof {
                    let after = self.window_states@;
                    assert forall|k: int| 0 <= k < after.len() implies #[trigger] after[k].label@
                        == window_label(after[k].id as nat) && 0 < after[k].id <= self.last_window_id
                        && after[k].script_state.wf() by {
                        if k != i {
                            assert(after[k] == before[k]);
                        }
                    }
                    assert forall|a: int, b: int|
                        0 <= a < after.len() && 0 <= b < after.len() && a != b implies after[a].id
                        != after[b].id by {
                        assert(after[a].id == before[a].id);
                        assert(after[b].id == before[b].id);
                    }
                }
                r
            },
        }
    }

    /// Closes the window labelled `label` and hands back its handle, so that
    /// the host can stop and join its worker; nothing where no such window is open.
    pub fn destroy_window(&mut self, label: &str) -> (r: Option<H>)
        requires
            old(self).wf(),
        ensures
            final(self).wf(),
            final(self).last_id() == old(self).last_id(),
            r is None <==> !has_label(old(self).records(), label@),
            r is None ==> *final(self) == *old(self),
            r matches Some(h) ==> exists|i: int|
                0 <= i < old(self).records().len() && old(self).records()[i].label@ == label@ && h
                    == old(self).records()[i].handle && final(self).records() == old(
                    self,
                ).records().remove(i),
    {
        match self.find(label) {
            None => None,
            Some(i) => {
                let ghost before = self.window_states@;
                let rec = self.window_states.remove(i);
                proof {
                    let after = self.window_states@;
                    assert forall|k: int| 0 <= k < after.len() implies #[trigger] after[k].label@
                        == window_label(after[k].id as nat) && 0 < after[k].id <= self.last_window_id
                        && after[k].script_state.wf() by {
                        if k < i {
                            assert(after[k] == before[k]);
                            assert(old(self).records()[k].label@ == window_label(
                                old(self).records()[k].id as nat,
                            ));
                        } else {
                            assert(after[k] == before[k + 1]);
                            assert(old(self).records()[k + 1].label@ == window_label(
                                old(self).records()[k + 1].id as nat,
                            ));
                        }
                    }
                    assert forall|a: int, b: int|
                        0 <= a < after.len() && 0 <= b < after.len() && a != b implies after[a].id
                        != after[b].id by {
                        let a0 = if a < i { a } else { a + 1 };
                        let b0 = if b < i { b } else { b + 1 };
                        assert(after[a] == before[a0]);
                        assert(after[b] == before[b0]);
                    }
                }
                Some(rec.handle)
            },
        }
    }

    /// Whether any window is open.
    pub fn has_open(&self) -> (r: bool)
        ensures
            r == (self.records().len() > 0),
    {
        self.window_states.len() > 0
    }
}

} // verus!
