use vstd::prelude::*;

verus! {

/// The features that this server backs with an implementation, and so advertises
/// when a client initializes it.
#[derive(Clone, Copy, Debug, PartialEq, Eq, Structural)]
pub struct Capabilities {
    pub hover: bool,
    pub completion: bool,
    pub full_document_sync: bool,
    pub diagnostics_push: bool,
}

/// Every feature for which the library holds an implementation: hover, completion,
/// whole-document synchronisation and pushed diagnostics.
pub open spec fn implemented() -> Capabilities {
    Capabilities { hover: true, completion: true, full_document_sync: true, diagnostics_push: true }
}

/// The capability set advertised at initialization: exactly the implemented features.
pub fn negotiate() -> (r: Capabilities)
    ensures
        r == implemented(),
{
    Capabilities { hover: true, completion: true, full_document_sync: true, diagnostics_push: true }
}

} // verus!
