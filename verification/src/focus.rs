use vstd::prelude::*;

verus! {

/// Whether the instrument's window has the input focus.  Away from the
/// platform whose window system the application drives, there is no
/// window to test, and playback should not be blocked: the answer is
/// always yes.  The platform-specific check lives with the caller.
pub fn is_black_desert_focused() -> (r: Result<bool, String>)
    ensures
        r matches Ok(b) && b,
{
    Ok(true)
}

/// Bring the instrument's window to the front.  Away from the platform
/// whose window system the application drives there is nothing to raise,
/// and the request succeeds as a no-op.
pub fn focus_black_desert_window() -> (r: Result<(), String>)
    ensures
        r is Ok,
{
    Ok(())
}

} // verus!
