use crate::info::{NodeInfo, NodeInfoView};
use crate::order::{sort_by_lo, sort_spans, sorted_by_lo};
use crate::registry::{Entries, Registry};
use crate::span::Span;
use crate::text::{decimal, push_decimal};
use vstd::prelude::*;
use vstd::string::*;

verus! {

/// Which hazards the reader of a report has asked for.
#[derive(Clone, Copy, Debug, PartialEq, Eq, Structural)]
pub struct Filter {
    /// Foreign calls.
    pub ffi: bool,
    /// Every hazard but foreign calls.
    pub nonffi: bool,
}

/// Where a region starts: the file, the line counted from one and the column
/// counted from zero.
#[derive(Debug)]
pub struct Loc {
    pub file: String,
    pub line: usize,
    pub col: usize,
}

impl NodeInfoView {
    /// The spans of every hazard but foreign calls, bucket after bucket.
    pub open spec fn other_spans(self) -> Seq<Span> {
        self.raw_deref + self.static_mut + self.unsafe_call + self.inline_asm + self.transmute
            + self.transmute_imm_to_mut + self.cast_raw_ptr_const_to_mut
    }

    /// The word for the kind of region.
    pub open spec fn kind(self) -> Seq<char> {
        if self.is_fn {
            "fn"@
        } else {
            "block"@
        }
    }
}

impl Filter {
    /// Whether the region `info` is reported: the compiler did not write it,
    /// and it holds a hazard of a kind that was asked for.
    pub open spec fn reports(self, info: NodeInfoView) -> bool {
        !info.compiler && ((self.nonffi && info.other_count() > 0) || (self.ffi
            && info.ffi_count() > 0))
    }

    /// The spans of `info` of the kinds that were asked for, as recorded.
    pub open spec fn selected(self, info: NodeInfoView) -> Seq<Span> {
        (if self.nonffi {
            info.other_spans()
        } else {
            Seq::empty()
        }) + (if self.ffi {
            info.ffi
        } else {
            Seq::empty()
        })
    }

    /// The spans of `info` of the kinds that were asked for, in source order.
    pub open spec fn flagged(self, info: NodeInfoView) -> Seq<Span> {
        sort_by_lo(self.selected(info))
    }

    /// The positions below `n` of the regions of `entries` that are
    /// reported, in ascending order.
    pub open spec fn reported_upto(self, entries: Entries, n: nat) -> Seq<usize>
        decreases n,
    {
        if n == 0 {
            Seq::empty()
        } else {
            let before = self.reported_upto(entries, (n - 1) as nat);
            if self.reports(entries[n - 1].1) {
                before.push((n - 1) as usize)
            } else {
                before
            }
        }
    }

    /// The positions of the regions of `entries` that are reported, in
    /// ascending order.
    pub open spec fn reported(self, entries: Entries) -> Seq<usize> {
        self.reported_upto(entries, entries.len())
    }

    /// The positions in `registry` of the regions that are reported, in
    /// ascending order, which is the order of their identities.
    pub fn reported_regions(&self, registry: &Registry) -> (positions: Vec<usize>)
        ensures
            positions@ == self.reported(registry@),
    {
        let mut positions: Vec<usize> = Vec::new();
        let n = registry.len();
        let mut i: usize = 0;
        while i < n
            invariant
                i <= n,
                n == registry@.len(),
                positions@ == self.reported_upto(registry@, i as nat),
            decreases n - i,
        {
            let (_, info) = registry.entry(i);
            if self.wants(info) {
                positions.push(i);
            }
            i += 1;
        }
        positions
    }

    /// Whether the region `info` is reported.
    pub fn wants(&self, info: &NodeInfo) -> (r: bool)
        ensures
            r == self.reports(info@),
    {
        !info.compiler && ((self.nonffi && info.has_other()) || (self.ffi && info.has_ffi()))
    }

    /// The spans of `info` of the kinds that were asked for, in ascending
    /// order of their start.
    pub fn flagged_spans(&self, info: &NodeInfo) -> (spans: Vec<Span>)
        ensures
            spans@ == self.flagged(info@),
            sorted_by_lo(spans@),
            spans@.to_multiset() == self.selected(info@).to_multiset(),
    {
        let mut picked: Vec<Span> = Vec::new();
        if self.nonffi {
            append_spans(&mut picked, &info.raw_deref);
            append_spans(&mut picked, &info.static_mut);
            append_spans(&mut picked, &info.unsafe_call);
            append_spans(&mut picked, &info.inline_asm);
            append_spans(&mut picked, &info.transmute);
            append_spans(&mut picked, &info.transmute_imm_to_mut);
            append_spans(&mut picked, &info.cast_raw_ptr_const_to_mut);
        }
        if self.ffi {
            append_spans(&mut picked, &info.ffi);
        }
        assert(picked@ =~= self.selected(info@));
        sort_spans(&picked)
    }
}

/// Appends the spans of `more` to `out`.
pub fn append_spans(out: &mut Vec<Span>, more: &Vec<Span>)
    ensures
        final(out)@ == old(out)@ + more@,
{
    let mut i: usize = 0;
    while i < more.len()
        invariant
            i <= more.len(),
            out@ == old(out)@ + more@.take(i as int),
        decreases more.len() - i,
    {
        out.push(more[i]);
        i += 1;
        assert(out@ =~= old(out)@ + more@.take(i as int));
    }
    assert(more@.take(more@.len() as int) =~= more@);
}

/// The line that heads the report of a region: where the region starts, the
/// column counted from one, the kind of region and its summary.
pub open spec fn summary_text(file: Seq<char>, line: nat, col: nat, info: NodeInfoView) -> Seq<
    char,
> {
    file + ":"@ + decimal(line) + ":"@ + decimal(col + 1) + ": "@ + info.kind() + " with "@
        + info.summary()
}

/// The line that heads the report of the region `info`, which starts at `loc`.
pub fn summary_line(loc: &Loc, info: &NodeInfo) -> (s: String)
    ensures
        s@ == summary_text(loc.file@, loc.line as nat, loc.col as nat, info@),
{
    let mut s = String::new();
    s.append(loc.file.as_str());
    s.append(":");
    push_decimal(&mut s, loc.line as u128);
    s.append(":");
    push_decimal(&mut s, loc.col as u128 + 1);
    s.append(": ");
    if info.is_fn {
        s.append("fn");
    } else {
        s.append("block");
    }
    s.append(" with ");
    let summary = info.summary();
    s.append(summary.as_str());
    assert(s@ =~= summary_text(loc.file@, loc.line as nat, loc.col as nat, info@));
    s
}

} // verus!
