//! A checklist of progress steps rendered as markdown lines.

use vstd::prelude::*;

verus! {

/// Lines with a state each: 0 open, 1 in progress, 2 done.
pub struct TickBox {
    pub lines: Vec<String>,
    pub checked: Vec<u8>,
}

pub open spec fn state_marker(state: u8) -> Seq<char> {
    if state == 0 {
        "- [ ] "@
    } else if state == 1 {
        "- -> "@
    } else {
        "- [x] "@
    }
}

/// The first `k` lines, each with its marker and a line break.
pub open spec fn rendered(lines: Seq<String>, checked: Seq<u8>, k: int) -> Seq<char>
    decreases k,
{
    if k <= 0 {
        Seq::empty()
    } else {
        rendered(lines, checked, k - 1) + state_marker(checked[k - 1]) + lines[k - 1]@ + seq!['\n']
    }
}

/// The index of the first line equal to `field`, among the first `k`; `k`
/// when there is none.
pub open spec fn first_match(lines: Seq<String>, field: Seq<char>, k: int) -> int
    decreases k,
{
    if k <= 0 {
        0
    } else if first_match(lines, field, k - 1) < k - 1 {
        first_match(lines, field, k - 1)
    } else if lines[k - 1]@ == field {
        k - 1
    } else {
        k
    }
}

/// The index of the first line in progress, among the first `k`; `k` when
/// there is none.
pub open spec fn first_running(checked: Seq<u8>, k: int) -> int
    decreases k,
{
    if k <= 0 {
        0
    } else if first_running(checked, k - 1) < k - 1 {
        first_running(checked, k - 1)
    } else if checked[k - 1] == 1 {
        k - 1
    } else {
        k
    }
}

/// The states after advancing: the first step in progress is done and the
/// one after it, if any, is in progress.
pub open spec fn advanced(checked: Seq<u8>) -> Seq<u8> {
    let i = first_running(checked, checked.len() as int);
    if i >= checked.len() {
        checked
    } else if i + 1 < checked.len() {
        checked.update(i, 2).update(i + 1, 1)
    } else {
        checked.update(i, 2)
    }
}

fn same_text(a: &str, b: &str) -> (r: bool)
    ensures
        r == (a@ == b@),
{
    let n = a.unicode_len();
    if n != b.unicode_len() {
        return false;
    }
    let mut i: usize = 0;
    while i < n
        invariant
            n == a@.len() == b@.len(),
            i <= n,
            forall|j: int| 0 <= j < i ==> a@[j] == b@[j],
        decreases n - i,
    {
        if a.get_char(i) != b.get_char(i) {
            return false;
        }
        i = i + 1;
    }
    assert(a@ =~= b@);
    true
}

fn marker(state: u8) -> (s: &'static str)
    requires
        state <= 2,
    ensures
        s@ == state_marker(state),
{
    if state == 0 {
        "- [ ] "
    } else if state == 1 {
        "- -> "
    } else {
        "- [x] "
    }
}

impl TickBox {
    /// Every line has a state.
    pub open spec fn wf(&self) -> bool {
        self.checked@.len() == self.lines@.len()
    }

    /// Every state is one of the three that render.
    pub open spec fn renderable(&self) -> bool {
        forall|i: int| 0 <= i < self.checked@.len() ==> #[trigger] self.checked@[i] <= 2
    }

    /// A checklist with every line open.
    pub fn new(lines: Vec<String>) -> (t: TickBox)
        ensures
            t.wf(),
            t.lines@ == lines@,
            t.checked@ == Seq::new(lines@.len(), |i: int| 0u8),
    {
        let n = lines.len();
        let mut checked: Vec<u8> = Vec::with_capacity(n);
        let mut i: usize = 0;
        while i < n
            invariant
                i <= n,
                checked@ == Seq::new(i as nat, |j: int| 0u8),
            decreases n - i,
        {
            checked.push(0);
            i = i + 1;
            assert(checked@ =~= Seq::new(i as nat, |j: int| 0u8));
        }
        TickBox { lines, checked }
    }

    /// One markdown line per step: `- [ ] `, `- -> ` or `- [x] ` and the
    /// step's text.
    pub fn to_string(&self) -> (s: String)
        requires
            self.wf(),
            self.renderable(),
        ensures
            s@ == rendered(self.lines@, self.checked@, self.lines@.len() as int),
    {
        let mut s = String::new();
        let mut i: usize = 0;
        while i < self.lines.len()
            invariant
                self.wf(),
                self.renderable(),
                i <= self.lines@.len(),
                s@ == rendered(self.lines@, self.checked@, i as int),
            decreases self.lines@.len() - i,
        {
            s.append(marker(self.checked[i]));
            s.append(self.lines[i].as_str());
            proof {
                reveal_strlit("\n");
            }
            s.append("\n");
            i = i + 1;
        }
        s
    }

    /// Sets the state of the first line equal to `field`.
    pub fn toggle(&mut self, field: &str, state: u8)
        requires
            old(self).wf(),
            exists|i: int| 0 <= i < old(self).lines@.len() && (#[trigger] old(self).lines@[i])@ == field@,
        ensures
            final(self).wf(),
            final(self).lines@ == old(self).lines@,
            final(self).checked@ == old(self).checked@.update(
                first_match(old(self).lines@, field@, old(self).lines@.len() as int),
                state,
            ),
    {
        let ghost lines = self.lines@;
        let n = self.lines.len();
        let mut i: usize = 0;
        while i < n
            invariant
                self.wf(),
                self.lines@ == lines,
                self.checked@ == old(self).checked@,
                lines == old(self).lines@,
                n == lines.len(),
                i <= n,
                first_match(lines, field@, i as int) == i,
            decreases n - i,
        {
            if same_text(self.lines[i].as_str(), field) {
                assert(first_match(lines, field@, i + 1) == i);
                proof {
                    lemma_first_match_stays(lines, field@, i as int + 1, n as int);
                }
                self.checked.set(i, state);
                return;
            }
            i = i + 1;
        }
        proof {
            lemma_first_match_none(lines, field@, n as int);
        }
    }

    /// Marks the first step in progress as done and starts the next one.
    pub fn next(&mut self)
        ensures
            final(self).lines@ == old(self).lines@,
            final(self).checked@ == advanced(old(self).checked@),
    {
        let ghost checked = self.checked@;
        let n = self.checked.len();
        let mut i: usize = 0;
        while i < n
            invariant
                self.lines@ == old(self).lines@,
                self.checked@ == checked,
                checked == old(self).checked@,
                n == checked.len(),
                i <= n,
                first_running(checked, i as int) == i,
            decreases n - i,
        {
            if self.checked[i] == 1 {
                assert(first_running(checked, i + 1) == i);
                proof {
                    lemma_first_running_stays(checked, i as int + 1, n as int);
                }
                self.checked.set(i, 2);
                if i + 1 < n {
                    self.checked.set(i + 1, 1);
                }
                return;
            }
            i = i + 1;
        }
    }
}

proof fn lemma_first_match_stays(lines: Seq<String>, field: Seq<char>, k: int, n: int)
    requires
        0 < k <= n <= lines.len(),
        first_match(lines, field, k) < k,
    ensures
        first_match(lines, field, n) == first_match(lines, field, k),
    decreases n - k,
{
    if k < n {
        lemma_first_match_stays(lines, field, k + 1, n);
    }
}

proof fn lemma_first_match_none(lines: Seq<String>, field: Seq<char>, n: int)
    requires
        0 <= n <= lines.len(),
        first_match(lines, field, n) == n,
    ensures
        forall|i: int| 0 <= i < n ==> (#[trigger] lines[i])@ != field,
    decreases n,
{
    if n > 0 {
        lemma_first_match_none(lines, field, n - 1);
    }
}

proof fn lemma_first_running_stays(checked: Seq<u8>, k: int, n: int)
    requires
        0 < k <= n <= checked.len(),
        first_running(checked, k) < k,
    ensures
        first_running(checked, n) == first_running(checked, k),
    decreases n - k,
{
    if k < n {
        lemma_first_running_stays(checked, k + 1, n);
    }
}

} // verus!
