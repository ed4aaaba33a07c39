use vstd::prelude::*;

verus! {

/// What one key byte asks of the viewer.
#[derive(Clone, Copy, Debug, PartialEq, Eq, Structural)]
pub enum Action {
    /// Stop the viewer (Ctrl-C, Esc, `q`).
    Quit,
    /// Move the content left: the horizontal offset decreases (`l`, `n`).
    PanLeft,
    /// Move the content right: the horizontal offset increases (`h`, `a`).
    PanRight,
    /// Move the content up: the vertical offset decreases (`j`, `s`).
    PanUp,
    /// Move the content down: the vertical offset increases (`k`, `w`).
    PanDown,
    /// Scroll a large step: the vertical offset decreases (space).
    PageUp,
    /// Multiply the zoom by 1.1 (`=`, `+`).
    ZoomIn,
    /// Divide the zoom by 1.1 (`-`, `_`).
    ZoomOut,
    /// A byte with no meaning; it changes nothing.
    Unknown(u8),
}

/// The action of a key byte.
pub open spec fn action_of(key: u8) -> Action {
    if key == 3 || key == 27 || key == 113 {
        Action::Quit
    } else if key == 32 {
        Action::PageUp
    } else if key == 104 || key == 97 {
        Action::PanRight
    } else if key == 106 || key == 115 {
        Action::PanUp
    } else if key == 108 || key == 110 {
        Action::PanLeft
    } else if key == 107 || key == 119 {
        Action::PanDown
    } else if key == 45 || key == 95 {
        Action::ZoomOut
    } else if key == 61 || key == 43 {
        Action::ZoomIn
    } else {
        Action::Unknown(key)
    }
}

/// Whether a key byte stops the viewer.
pub open spec fn is_quit_key(key: u8) -> bool {
    action_of(key) == Action::Quit
}

/// Maps a key byte to its action.
pub fn decode(key: u8) -> (a: Action)
    ensures
        a == action_of(key),
{
    match key {
        3 | 27 | 113 => Action::Quit,
        32 => Action::PageUp,
        104 | 97 => Action::PanRight,
        106 | 115 => Action::PanUp,
        108 | 110 => Action::PanLeft,
        107 | 119 => Action::PanDown,
        45 | 95 => Action::ZoomOut,
        61 | 43 => Action::ZoomIn,
        other => Action::Unknown(other),
    }
}

/// Maps each key byte, in order, to its action.
pub fn decode_all(keys: &[u8]) -> (r: Vec<Action>)
    ensures
        r@ == keys@.map_values(|k: u8| action_of(k)),
{
    let mut r: Vec<Action> = Vec::new();
    let mut i: usize = 0;
    while i < keys.len()
        invariant
            i <= keys@.len(),
            r@ == keys@.take(i as int).map_values(|k: u8| action_of(k)),
        decreases keys@.len() - i,
    {
        r.push(decode(keys[i]));
        proof {
            assert(keys@.take(i + 1) == keys@.take(i as int).push(keys@[i as int]));
        }
        i = i + 1;
    }
    proof {
        assert(keys@.take(keys@.len() as int) == keys@);
    }
    r
}

} // verus!
