use vstd::prelude::*;

verus! {

/// The pieces below `n` that have not been received, in increasing order.
pub open spec fn missed_below(n: nat, received: Seq<usize>) -> Seq<usize>
    decreases n,
{
    if n == 0 {
        Seq::empty()
    } else {
        let prev = missed_below((n - 1) as nat, received);
        if received.contains((n - 1) as usize) {
            prev
        } else {
            prev.push((n - 1) as usize)
        }
    }
}

/// The progress of a download: which pieces of the file have been written.
#[derive(Debug)]
pub struct DownloadState {
    file_name: String,
    total: usize,
    recived: Vec<usize>,
}

impl DownloadState {
    /// The name of the file being downloaded.
    pub closed spec fn spec_file_name(&self) -> Seq<char> {
        self.file_name@
    }

    /// The number of pieces.
    pub closed spec fn spec_total(&self) -> usize {
        self.total
    }

    /// The pieces received so far, in the order they were recorded.
    pub closed spec fn spec_recived(&self) -> Seq<usize> {
        self.recived@
    }

    /// A fresh state: nothing received yet.
    pub fn new(file_name: &str, total: usize) -> (res: Self)
        ensures
            res.spec_file_name() == file_name@,
            res.spec_total() == total,
            res.spec_recived().len() == 0,
    {
        DownloadState { file_name: file_name.to_owned(), total, recived: Vec::with_capacity(total) }
    }

    /// A state from its parts, as read back from storage.
    pub fn from_parts(file_name: String, total: usize, recived: Vec<usize>) -> (res: Self)
        ensures
            res.spec_file_name() == file_name@,
            res.spec_total() == total,
            res.spec_recived() == recived@,
    {
        DownloadState { file_name, total, recived }
    }

    /// The name of the file being downloaded.
    pub fn file_name(&self) -> (res: &str)
        ensures
            res@ == self.spec_file_name(),
    {
        self.file_name.as_str()
    }

    /// The number of pieces.
    pub fn total(&self) -> (res: usize)
        ensures
            res == self.spec_total(),
    {
        self.total
    }

    /// The pieces received so far.
    pub fn recived(&self) -> (res: &Vec<usize>)
        ensures
            res@ == self.spec_recived(),
    {
        &self.recived
    }

    /// The pieces still to download, in increasing order.
    pub fn get_missed_parts(&self) -> (res: Vec<usize>)
        ensures
            res@ == missed_below(self.spec_total() as nat, self.spec_recived()),
    {
        let mut res: Vec<usize> = Vec::new();
        let mut n: usize = 0;
        while n < self.total
            invariant
                n <= self.total,
                res@ == missed_below(n as nat, self.recived@),
            decreases self.total - n,
        {
            if !self.is_recived(&n) {
                res.push(n);
            }
            n = n + 1;
        }
        res
    }

    /// Whether piece `index` has been received.
    pub fn is_recived(&self, index: &usize) -> (res: bool)
        ensures
            res == self.spec_recived().contains(*index),
    {
        let len = self.recived.len();
        let mut i: usize = 0;
        while i < len
            invariant
                len == self.recived@.len(),
                i <= len,
                forall|k: int| 0 <= k < i ==> self.recived@[k] != *index,
            decreases len - i,
        {
            if self.recived[i] == *index {
                return true;
            }
            i = i + 1;
        }
        false
    }

    /// Records that piece `n` has been received.
    pub fn update(&mut self, n: usize)
        ensures
            final(self).spec_file_name() == old(self).spec_file_name(),
            final(self).spec_total() == old(self).spec_total(),
            final(self).spec_recived() == old(self).spec_recived().push(n),
    {
        self.recived.push(n);
    }
}

/// A piece is missed exactly when it is below the total and not received;
/// the missed pieces come in strictly increasing order.
pub proof fn law_missed_parts(total: nat, received: Seq<usize>)
    requires
        total <= usize::MAX + 1,
    ensures
        forall|i: usize|
            #[trigger] missed_below(total, received).contains(i) <==> (i < total
                && !received.contains(i)),
        forall|j: int, k: int|
            #![trigger missed_below(total, received)[j], missed_below(total, received)[k]]
            0 <= j < k < missed_below(total, received).len() ==> missed_below(total, received)[j]
                < missed_below(total, received)[k],
    decreases total,
{
    if total > 0 {
        let prev = missed_below((total - 1) as nat, received);
        law_missed_parts((total - 1) as nat, received);
        let s = missed_below(total, received);
        assert forall|i: usize| #[trigger] s.contains(i) <==> (i < total && !received.contains(i)) by {
            if s.contains(i) {
                let k = choose|k: int| 0 <= k < s.len() && s[k] == i;
                if k < prev.len() {
                    assert(prev.contains(i));
                }
            }
            if i < total && !received.contains(i) {
                if i < total - 1 {
                    assert(prev.contains(i));
                    let k = choose|k: int| 0 <= k < prev.len() && prev[k] == i;
                    assert(s[k] == i);
                } else {
                    assert(s[s.len() - 1] == i);
                }
            }
        }
        assert forall|j: int, k: int| 0 <= j < k < s.len() implies #[trigger] s[j] < #[trigger] s[k] by {
            if k == prev.len() {
                assert(prev.contains(s[j]));
            }
        }
    }
}

/// Recording a piece takes it out of the missed pieces and leaves every
/// other piece as it was.
pub proof fn law_update_marks_received(total: nat, received: Seq<usize>, n: usize)
    requires
        total <= usize::MAX + 1,
    ensures
        !missed_below(total, received.push(n)).contains(n),
        forall|i: usize|
            i != n ==> (#[trigger] missed_below(total, received.push(n)).contains(i)
                <==> missed_below(total, received).contains(i)),
{
    law_missed_parts(total, received);
    law_missed_parts(total, received.push(n));
    assert(received.push(n).contains(n)) by {
        assert(received.push(n)[received.len() as int] == n);
    }
    assert forall|i: usize| i != n implies (#[trigger] received.push(n).contains(i)
        <==> received.contains(i)) by {
        if received.push(n).contains(i) {
            let k = choose|k: int| 0 <= k < received.push(n).len() && received.push(n)[k] == i;
            assert(k < received.len());
            assert(received[k] == i);
        }
        if received.contains(i) {
            let k = choose|k: int| 0 <= k < received.len() && received[k] == i;
            assert(received.push(n)[k] == i);
        }
    }
}


/// `s` without any occurrence of `n`, in order.
pub open spec fn without(s: Seq<usize>, n: usize) -> Seq<usize>
    decreases s.len(),
{
    if s.len() == 0 {
        Seq::empty()
    } else {
        let prev = without(s.drop_last(), n);
        if s.last() == n {
            prev
        } else {
            prev.push(s.last())
        }
    }
}

/// After recording piece `n`, the missed pieces are those before, in the
/// same order, with `n` left out.
pub proof fn law_update_missed_parts(total: nat, received: Seq<usize>, n: usize)
    requires
        total <= usize::MAX + 1,
    ensures
        missed_below(total, received.push(n)) == without(missed_below(total, received), n),
    decreases total,
{
    if total > 0 {
        law_update_missed_parts((total - 1) as nat, received, n);
        let x = (total - 1) as usize;
        assert(received.push(n).contains(x) <==> (received.contains(x) || x == n)) by {
            if received.push(n).contains(x) {
                let k = choose|k: int| 0 <= k < received.push(n).len() && received.push(n)[k] == x;
                if k < received.len() {
                    assert(received[k] == x);
                }
            }
            if received.contains(x) {
                let k = choose|k: int| 0 <= k < received.len() && received[k] == x;
                assert(received.push(n)[k] == x);
            }
            if x == n {
                assert(received.push(n)[received.len() as int] == x);
            }
        }
        let prev = missed_below((total - 1) as nat, received);
        if !received.contains(x) {
            assert(missed_below(total, received).drop_last() =~= prev);
        } else {
            assert(missed_below(total, received) =~= prev);
        }
    }
}

} // verus!
