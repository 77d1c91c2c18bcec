use vstd::prelude::*;

use crate::descriptor::Format;

verus! {

/// `s` with every repeated entry left out, first occurrences kept in order.
pub open spec fn dedup(s: Seq<Format>) -> Seq<Format>
    decreases s.len(),
{
    if s.len() == 0 {
        s
    } else {
        let head = dedup(s.drop_last());
        if head.contains(s.last()) {
            head
        } else {
            head.push(s.last())
        }
    }
}

/// Leaving out repeats keeps exactly the formats that were there.
pub proof fn lemma_dedup_contains(s: Seq<Format>, f: Format)
    ensures
        dedup(s).contains(f) <==> s.contains(f),
    decreases s.len(),
{
    if s.len() > 0 {
        let init = s.drop_last();
        let head = dedup(init);
        lemma_dedup_contains(init, f);
        lemma_dedup_contains(init, s.last());
        assert(s =~= init.push(s.last()));
        if s.contains(f) && f != s.last() {
            let k = choose|k: int| 0 <= k < s.len() && s[k] == f;
            assert(init[k] == f);
        }
        if init.contains(f) {
            let k = choose|k: int| 0 <= k < init.len() && init[k] == f;
            assert(s[k] == f);
        }
        if !head.contains(s.last()) {
            let d = head.push(s.last());
            assert(d[head.len() as int] == s.last());
            if d.contains(f) && f != s.last() {
                let k = choose|k: int| 0 <= k < d.len() && d[k] == f;
                assert(head[k] == f);
            }
            if head.contains(f) {
                let k = choose|k: int| 0 <= k < head.len() && head[k] == f;
                assert(d[k] == f);
            }
        }
        assert(s[s.len() - 1] == s.last());
    }
}

/// Whether `v` holds `f`.
pub fn contains_format(v: &Vec<Format>, f: Format) -> (r: bool)
    ensures
        r == v@.contains(f),
{
    let mut i: usize = 0;
    while i < v.len()
        invariant
            i <= v@.len(),
            forall|j: int| 0 <= j < i ==> v@[j] != f,
        decreases v@.len() - i,
    {
        if v[i] == f {
            return true;
        }
        i += 1;
    }
    false
}

/// Import feedback: the device that buffers should be allocated on and the
/// format and modifier pairs it can import, each once, in discovery order.
#[derive(Clone, Debug)]
pub struct Feedback {
    pub main_device: u64,
    pub formats: Vec<Format>,
}

impl Feedback {
    /// The default feedback computed from what device discovery reported.
    pub fn new(main_device: u64, supported: Vec<Format>) -> (r: Self)
        ensures
            r.main_device == main_device,
            r.formats@ == dedup(supported@),
            forall|f: Format| r.formats@.contains(f) <==> supported@.contains(f),
    {
        let mut out: Vec<Format> = Vec::new();
        let mut i: usize = 0;
        while i < supported.len()
            invariant
                i <= supported@.len(),
                out@ == dedup(supported@.take(i as int)),
            decreases supported@.len() - i,
        {
            let f = supported[i];
            proof {
                assert(supported@.take(i + 1).drop_last() =~= supported@.take(i as int));
                assert(supported@.take(i + 1).last() == f);
            }
            if !contains_format(&out, f) {
                out.push(f);
            }
            i += 1;
        }
        assert(supported@.take(supported@.len() as int) =~= supported@);
        assert forall|f: Format| out@.contains(f) <==> supported@.contains(f) by {
            lemma_dedup_contains(supported@, f);
        }
        Feedback { main_device, formats: out }
    }

    /// Whether the pair is one the device can import.
    pub open spec fn allows(&self, fourcc: u32, modifier: u64) -> bool {
        self.formats@.contains(Format { fourcc, modifier })
    }

    /// Whether the pair is one the device can import.
    pub fn supports(&self, fourcc: u32, modifier: u64) -> (r: bool)
        ensures
            r == self.allows(fourcc, modifier),
    {
        contains_format(&self.formats, Format { fourcc, modifier })
    }
}

} // verus!
