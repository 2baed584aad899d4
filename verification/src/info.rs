use crate::span::Span;
use crate::text::{push_entry, with_entry};
use vstd::prelude::*;

verus! {

/// The operations that are legal only inside an unsafe region.
#[derive(Clone, Copy, Debug, PartialEq, Eq, Structural)]
pub enum Hazard {
    /// A call of a function declared as an external item of the program.
    Ffi,
    /// A dereference of a raw pointer.
    RawDeref,
    /// A use of a mutable static.
    StaticMut,
    /// A call of an unsafe function or method.
    UnsafeCall,
    /// A reinterpretation of a value as another type.
    Transmute,
    /// A cast or reinterpretation of `&T` as `&mut T`.
    TransmuteImmToMut,
    /// A cast or reinterpretation of `*const T` as `*mut T`.
    CastRawPtrConstToMut,
    /// Inline assembly.
    Asm,
}

/// The mathematical content of a [`NodeInfo`].
pub ghost struct NodeInfoView {
    pub span: Span,
    pub is_fn: bool,
    pub compiler: bool,
    pub ffi: Seq<Span>,
    pub raw_deref: Seq<Span>,
    pub static_mut: Seq<Span>,
    pub unsafe_call: Seq<Span>,
    pub transmute: Seq<Span>,
    pub transmute_imm_to_mut: Seq<Span>,
    pub cast_raw_ptr_const_to_mut: Seq<Span>,
    pub inline_asm: Seq<Span>,
}

impl NodeInfoView {
    /// A region that has recorded nothing yet.
    pub open spec fn fresh(span: Span, is_fn: bool, compiler: bool) -> NodeInfoView {
        NodeInfoView {
            span,
            is_fn,
            compiler,
            ffi: Seq::empty(),
            raw_deref: Seq::empty(),
            static_mut: Seq::empty(),
            unsafe_call: Seq::empty(),
            transmute: Seq::empty(),
            transmute_imm_to_mut: Seq::empty(),
            cast_raw_ptr_const_to_mut: Seq::empty(),
            inline_asm: Seq::empty(),
        }
    }

    /// The spans recorded under `hazard`, in the order they were recorded.
    pub open spec fn bucket(self, hazard: Hazard) -> Seq<Span> {
        match hazard {
            Hazard::Ffi => self.ffi,
            Hazard::RawDeref => self.raw_deref,
            Hazard::StaticMut => self.static_mut,
            Hazard::UnsafeCall => self.unsafe_call,
            Hazard::Transmute => self.transmute,
            Hazard::TransmuteImmToMut => self.transmute_imm_to_mut,
            Hazard::CastRawPtrConstToMut => self.cast_raw_ptr_const_to_mut,
            Hazard::Asm => self.inline_asm,
        }
    }

    /// The region with `span` appended to the bucket of `hazard`.
    pub open spec fn record(self, hazard: Hazard, span: Span) -> NodeInfoView {
        match hazard {
            Hazard::Ffi => NodeInfoView { ffi: self.ffi.push(span), ..self },
            Hazard::RawDeref => NodeInfoView { raw_deref: self.raw_deref.push(span), ..self },
            Hazard::StaticMut => NodeInfoView { static_mut: self.static_mut.push(span), ..self },
            Hazard::UnsafeCall => NodeInfoView { unsafe_call: self.unsafe_call.push(span), ..self },
            Hazard::Transmute => NodeInfoView { transmute: self.transmute.push(span), ..self },
            Hazard::TransmuteImmToMut => NodeInfoView {
                transmute_imm_to_mut: self.transmute_imm_to_mut.push(span),
                ..self
            },
            Hazard::CastRawPtrConstToMut => NodeInfoView {
                cast_raw_ptr_const_to_mut: self.cast_raw_ptr_const_to_mut.push(span),
                ..self
            },
            Hazard::Asm => NodeInfoView { inline_asm: self.inline_asm.push(span), ..self },
        }
    }

    /// How many operations other than foreign calls were recorded.
    pub open spec fn other_count(self) -> nat {
        self.raw_deref.len() + self.static_mut.len() + self.unsafe_call.len() + self.inline_asm.len()
            + self.transmute.len() + self.transmute_imm_to_mut.len()
            + self.cast_raw_ptr_const_to_mut.len()
    }

    /// How many foreign calls were recorded.
    pub open spec fn ffi_count(self) -> nat {
        self.ffi.len()
    }

    /// Whether nothing at all was recorded.
    pub open spec fn is_clean(self) -> bool {
        self.other_count() == 0 && self.ffi_count() == 0
    }

    /// The counts of the hazards found, as text: one entry, a count and the
    /// hazard's label, for each bucket that is not empty, parted by commas.
    pub open spec fn summary(self) -> Seq<char> {
        let s = Seq::<char>::empty();
        let s = with_entry(s, self.inline_asm.len(), Hazard::Asm.label());
        let s = with_entry(s, self.raw_deref.len(), Hazard::RawDeref.label());
        let s = with_entry(s, self.ffi.len(), Hazard::Ffi.label());
        let s = with_entry(s, self.static_mut.len(), Hazard::StaticMut.label());
        let s = with_entry(s, self.transmute.len(), Hazard::Transmute.label());
        let s = with_entry(
            s,
            self.transmute_imm_to_mut.len(),
            Hazard::TransmuteImmToMut.label(),
        );
        let s = with_entry(
            s,
            self.cast_raw_ptr_const_to_mut.len(),
            Hazard::CastRawPtrConstToMut.label(),
        );
        with_entry(s, self.unsafe_call.len(), Hazard::UnsafeCall.label())
    }
}

impl Hazard {
    /// The text that names this hazard in a summary.
    pub open spec fn label(self) -> Seq<char> {
        match self {
            Hazard::Ffi => "ffi"@,
            Hazard::RawDeref => "deref"@,
            Hazard::StaticMut => "static mut"@,
            Hazard::UnsafeCall => "unsafe call"@,
            Hazard::Transmute => "transmute"@,
            Hazard::TransmuteImmToMut => "reference mutability upgrade"@,
            Hazard::CastRawPtrConstToMut => "cast *const to *mut"@,
            Hazard::Asm => "asm"@,
        }
    }

    /// The text that names this hazard in a summary.
    pub fn name(self) -> (s: &'static str)
        ensures
            s@ == self.label(),
    {
        match self {
            Hazard::Ffi => "ffi",
            Hazard::RawDeref => "deref",
            Hazard::StaticMut => "static mut",
            Hazard::UnsafeCall => "unsafe call",
            Hazard::Transmute => "transmute",
            Hazard::TransmuteImmToMut => "reference mutability upgrade",
            Hazard::CastRawPtrConstToMut => "cast *const to *mut",
            Hazard::Asm => "asm",
        }
    }
}

/// One unsafe region: an unsafe function or an unsafe block, with the spans
/// of the hazardous operations found in it, one list per kind of hazard.
#[derive(Debug)]
pub struct NodeInfo {
    pub span: Span,
    pub is_fn: bool,
    pub compiler: bool,
    pub ffi: Vec<Span>,
    pub raw_deref: Vec<Span>,
    pub static_mut: Vec<Span>,
    pub unsafe_call: Vec<Span>,
    pub transmute: Vec<Span>,
    pub transmute_imm_to_mut: Vec<Span>,
    pub cast_raw_ptr_const_to_mut: Vec<Span>,
    pub inline_asm: Vec<Span>,
}

impl View for NodeInfo {
    type V = NodeInfoView;

    open spec fn view(&self) -> NodeInfoView {
        NodeInfoView {
            span: self.span,
            is_fn: self.is_fn,
            compiler: self.compiler,
            ffi: self.ffi@,
            raw_deref: self.raw_deref@,
            static_mut: self.static_mut@,
            unsafe_call: self.unsafe_call@,
            transmute: self.transmute@,
            transmute_imm_to_mut: self.transmute_imm_to_mut@,
            cast_raw_ptr_const_to_mut: self.cast_raw_ptr_const_to_mut@,
            inline_asm: self.inline_asm@,
        }
    }
}

impl NodeInfo {
    /// A region over `span` with every bucket empty.
    pub fn new(span: Span, is_fn: bool, compiler: bool) -> (info: NodeInfo)
        ensures
            info@ == NodeInfoView::fresh(span, is_fn, compiler),
    {
        NodeInfo {
            span,
            is_fn,
            compiler,
            ffi: Vec::new(),
            raw_deref: Vec::new(),
            static_mut: Vec::new(),
            unsafe_call: Vec::new(),
            transmute: Vec::new(),
            transmute_imm_to_mut: Vec::new(),
            cast_raw_ptr_const_to_mut: Vec::new(),
            inline_asm: Vec::new(),
        }
    }

    /// Appends `span` to the bucket of `hazard` and leaves the rest alone.
    pub fn record(&mut self, hazard: Hazard, span: Span)
        ensures
            final(self)@ == old(self)@.record(hazard, span),
    {
        match hazard {
            Hazard::Ffi => self.ffi.push(span),
            Hazard::RawDeref => self.raw_deref.push(span),
            Hazard::StaticMut => self.static_mut.push(span),
            Hazard::UnsafeCall => self.unsafe_call.push(span),
            Hazard::Transmute => self.transmute.push(span),
            Hazard::TransmuteImmToMut => self.transmute_imm_to_mut.push(span),
            Hazard::CastRawPtrConstToMut => self.cast_raw_ptr_const_to_mut.push(span),
            Hazard::Asm => self.inline_asm.push(span),
        }
    }

    /// The spans recorded under `hazard`.
    pub fn bucket(&self, hazard: Hazard) -> (spans: &Vec<Span>)
        ensures
            spans@ == self@.bucket(hazard),
    {
        match hazard {
            Hazard::Ffi => &self.ffi,
            Hazard::RawDeref => &self.raw_deref,
            Hazard::StaticMut => &self.static_mut,
            Hazard::UnsafeCall => &self.unsafe_call,
            Hazard::Transmute => &self.transmute,
            Hazard::TransmuteImmToMut => &self.transmute_imm_to_mut,
            Hazard::CastRawPtrConstToMut => &self.cast_raw_ptr_const_to_mut,
            Hazard::Asm => &self.inline_asm,
        }
    }

    /// Whether any operation other than a foreign call was recorded.
    pub fn has_other(&self) -> (r: bool)
        ensures
            r == (self@.other_count() > 0),
    {
        self.raw_deref.len() > 0 || self.static_mut.len() > 0 || self.unsafe_call.len() > 0
            || self.inline_asm.len() > 0 || self.transmute.len() > 0
            || self.transmute_imm_to_mut.len() > 0 || self.cast_raw_ptr_const_to_mut.len() > 0
    }

    /// The counts of the hazards found, as text.
    pub fn summary(&self) -> (s: String)
        ensures
            s@ == self@.summary(),
    {
        let mut s = String::new();
        push_entry(&mut s, self.inline_asm.len(), Hazard::Asm.name());
        push_entry(&mut s, self.raw_deref.len(), Hazard::RawDeref.name());
        push_entry(&mut s, self.ffi.len(), Hazard::Ffi.name());
        push_entry(&mut s, self.static_mut.len(), Hazard::StaticMut.name());
        push_entry(&mut s, self.transmute.len(), Hazard::Transmute.name());
        push_entry(&mut s, self.transmute_imm_to_mut.len(), Hazard::TransmuteImmToMut.name());
        push_entry(
            &mut s,
            self.cast_raw_ptr_const_to_mut.len(),
            Hazard::CastRawPtrConstToMut.name(),
        );
        push_entry(&mut s, self.unsafe_call.len(), Hazard::UnsafeCall.name());
        s
    }

    /// Whether any foreign call was recorded.
    pub fn has_ffi(&self) -> (r: bool)
        ensures
            r == (self@.ffi_count() > 0),
    {
        self.ffi.len() > 0
    }
}

} // verus!
