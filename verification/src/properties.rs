use vstd::prelude::*;
use crate::geom::{Block, PointBlock};
verus! {

/// Strength with which a character asserts one of its blocks.
#[derive(Debug, Clone, Copy, PartialEq, Eq, Structural)]
pub enum Signal {
    Weak,
    Medium,
    Strong,
}

/// An abstract drawing primitive contributed by one cell, with symbolic
/// endpoints; lengths and radii are in quarter-cell multiples.
#[derive(Debug, Clone, Copy, PartialEq, Eq, Structural)]
pub enum Fragment {
    Line(PointBlock, PointBlock),
    DashedLine(PointBlock, PointBlock),
    CircleStartLine(PointBlock, PointBlock),
    SquareStartLine(PointBlock, PointBlock),
    CircleOpenLine(PointBlock, PointBlock),
    BigCircleOpenLine(PointBlock, PointBlock),
    ArrowLine(PointBlock, PointBlock),
    ClearArrowLine(PointBlock, PointBlock),
    StartArrowLine(PointBlock, PointBlock),
    Arc(PointBlock, PointBlock, u32),
    OpenCircle(PointBlock, u32),
}

/// A neighbour predicate: how an intensification condition inspects the
/// cell at a relative location.
#[derive(Debug, Clone, Copy, PartialEq, Eq, Structural)]
pub enum Can {
    /// That neighbour can pass-connect to the block at the signal level.
    ConnectTo(Block, Signal),
    /// That neighbour is exactly this character.
    Is(char),
    /// Both blocks are strong on that neighbour, without intensification.
    IsStrongAll2(Block, Block),
}

/// A predicate on the cell `(dx, dy)` away from the focus.
#[derive(Debug, Clone, Copy, PartialEq, Eq, Structural)]
pub struct Condition {
    pub dx: i32,
    pub dy: i32,
    pub can: Can,
}

/// One intensification rule: the block becomes strong when the condition
/// holds of the named neighbour.
#[derive(Debug, Clone, Copy, PartialEq, Eq, Structural)]
pub struct IntensifyEntry {
    pub block: Block,
    pub cond: Condition,
}

/// One intended behaviour: when every listed block can be made strong,
/// the listed fragments are emitted instead of the default properties.
#[derive(Debug, Clone, Copy, PartialEq, Eq, Structural)]
pub struct IntendedEntry {
    pub b1: Block,
    pub b2: Option<Block>,
    pub b3: Option<Block>,
    pub frag: Fragment,
    pub frag2: Option<Fragment>,
    pub frag3: Option<Fragment>,
}

/// One default property: when the block is strong (or intensified), the
/// fragments are emitted.
#[derive(Debug, Clone, Copy, PartialEq, Eq, Structural)]
pub struct PropertyEntry {
    pub block: Block,
    pub signal: Signal,
    pub frag: Fragment,
    pub frag2: Option<Fragment>,
}


/// Whether the character always draws: the Unicode box-drawing glyphs.
pub open spec fn is_static_spec(c: char) -> bool {
    match c {
        '\u{2500}' | '\u{2502}' | '\u{250c}' | '\u{2510}' | '\u{2514}' | '\u{2518}' | '\u{251c}' | '\u{2524}' | '\u{252c}' | '\u{2534}' | '\u{253c}' => true,
        _ => false,
    }
}

/// Whether the character always draws: the Unicode box-drawing glyphs.
pub fn is_static(c: char) -> (r: bool)
    ensures
        r == is_static_spec(c),
{
    match c {
        '\u{2500}' | '\u{2502}' | '\u{250c}' | '\u{2510}' | '\u{2514}' | '\u{2518}' | '\u{251c}' | '\u{2524}' | '\u{252c}' | '\u{2534}' | '\u{253c}' => true,
        _ => false,
    }
}

/// Whether the character has a table entry at all.
pub open spec fn has_characteristic_spec(c: char) -> bool {
    match c {
        '-' | '=' | '|' | ':' | '_' | '/' | '\\' | '+' | '.' | '\'' | '>' | '<' | '^' | 'v' | 'o' | 'O' | '*' | '#' | '\u{2500}' | '\u{2502}' | '\u{250c}' | '\u{2510}' | '\u{2514}' | '\u{2518}' | '\u{251c}' | '\u{2524}' | '\u{252c}' | '\u{2534}' | '\u{253c}' => true,
        _ => false,
    }
}

/// Whether the character has a table entry at all.
pub fn has_characteristic(c: char) -> (r: bool)
    ensures
        r == has_characteristic_spec(c),
{
    match c {
        '-' | '=' | '|' | ':' | '_' | '/' | '\\' | '+' | '.' | '\'' | '>' | '<' | '^' | 'v' | 'o' | 'O' | '*' | '#' | '\u{2500}' | '\u{2502}' | '\u{250c}' | '\u{2510}' | '\u{2514}' | '\u{2518}' | '\u{251c}' | '\u{2524}' | '\u{252c}' | '\u{2534}' | '\u{253c}' => true,
        _ => false,
    }
}

/// Whether the character asserts the block at strong signal.
pub open spec fn is_strong_block_spec(c: char, b: Block) -> bool {
    match c {
        '-' => match b { Block::K | Block::O => true, _ => false },
        '=' => match b { Block::K | Block::O => true, _ => false },
        '|' => match b { Block::C | Block::W => true, _ => false },
        ':' => match b { Block::C | Block::W => true, _ => false },
        '_' => match b { Block::U | Block::Y => true, _ => false },
        '/' => match b { Block::E | Block::U => true, _ => false },
        '\\' => match b { Block::A | Block::Y => true, _ => false },
        '\u{2500}' => match b { Block::K | Block::O => true, _ => false },
        '\u{2502}' => match b { Block::C | Block::W => true, _ => false },
        '\u{250c}' => match b { Block::O | Block::W => true, _ => false },
        '\u{2510}' => match b { Block::K | Block::W => true, _ => false },
        '\u{2514}' => match b { Block::C | Block::O => true, _ => false },
        '\u{2518}' => match b { Block::C | Block::K => true, _ => false },
        '\u{251c}' => match b { Block::C | Block::W | Block::O => true, _ => false },
        '\u{2524}' => match b { Block::C | Block::W | Block::K => true, _ => false },
        '\u{252c}' => match b { Block::K | Block::O | Block::W => true, _ => false },
        '\u{2534}' => match b { Block::K | Block::O | Block::C => true, _ => false },
        '\u{253c}' => match b { Block::C | Block::W | Block::K | Block::O => true, _ => false },
        _ => false,
    }
}

/// Whether the character asserts the block at strong signal.
pub fn is_strong_block(c: char, b: Block) -> (r: bool)
    ensures
        r == is_strong_block_spec(c, b),
{
    match c {
        '-' => match b { Block::K | Block::O => true, _ => false },
        '=' => match b { Block::K | Block::O => true, _ => false },
        '|' => match b { Block::C | Block::W => true, _ => false },
        ':' => match b { Block::C | Block::W => true, _ => false },
        '_' => match b { Block::U | Block::Y => true, _ => false },
        '/' => match b { Block::E | Block::U => true, _ => false },
        '\\' => match b { Block::A | Block::Y => true, _ => false },
        '\u{2500}' => match b { Block::K | Block::O => true, _ => false },
        '\u{2502}' => match b { Block::C | Block::W => true, _ => false },
        '\u{250c}' => match b { Block::O | Block::W => true, _ => false },
        '\u{2510}' => match b { Block::K | Block::W => true, _ => false },
        '\u{2514}' => match b { Block::C | Block::O => true, _ => false },
        '\u{2518}' => match b { Block::C | Block::K => true, _ => false },
        '\u{251c}' => match b { Block::C | Block::W | Block::O => true, _ => false },
        '\u{2524}' => match b { Block::C | Block::W | Block::K => true, _ => false },
        '\u{252c}' => match b { Block::K | Block::O | Block::W => true, _ => false },
        '\u{2534}' => match b { Block::K | Block::O | Block::C => true, _ => false },
        '\u{253c}' => match b { Block::C | Block::W | Block::K | Block::O => true, _ => false },
        _ => false,
    }
}

/// Whether the character asserts the block at medium signal.
pub open spec fn is_medium_block_spec(c: char, b: Block) -> bool {
    match c {
        '+' => match b { Block::C | Block::W | Block::K | Block::O | Block::A | Block::E | Block::U | Block::Y => true, _ => false },
        '.' => match b { Block::K | Block::O | Block::W => true, _ => false },
        '\'' => match b { Block::K | Block::O | Block::C => true, _ => false },
        '>' => match b { Block::K => true, _ => false },
        '<' => match b { Block::O => true, _ => false },
        '^' => match b { Block::W => true, _ => false },
        'v' => match b { Block::C => true, _ => false },
        'o' => match b { Block::C | Block::K | Block::O | Block::W => true, _ => false },
        'O' => match b { Block::C | Block::K | Block::O | Block::W => true, _ => false },
        '*' => match b { Block::C | Block::K | Block::O | Block::W => true, _ => false },
        '#' => match b { Block::C | Block::K | Block::O | Block::W => true, _ => false },
        _ => false,
    }
}

/// Whether the character asserts the block at medium signal.
pub fn is_medium_block(c: char, b: Block) -> (r: bool)
    ensures
        r == is_medium_block_spec(c, b),
{
    match c {
        '+' => match b { Block::C | Block::W | Block::K | Block::O | Block::A | Block::E | Block::U | Block::Y => true, _ => false },
        '.' => match b { Block::K | Block::O | Block::W => true, _ => false },
        '\'' => match b { Block::K | Block::O | Block::C => true, _ => false },
        '>' => match b { Block::K => true, _ => false },
        '<' => match b { Block::O => true, _ => false },
        '^' => match b { Block::W => true, _ => false },
        'v' => match b { Block::C => true, _ => false },
        'o' => match b { Block::C | Block::K | Block::O | Block::W => true, _ => false },
        'O' => match b { Block::C | Block::K | Block::O | Block::W => true, _ => false },
        '*' => match b { Block::C | Block::K | Block::O | Block::W => true, _ => false },
        '#' => match b { Block::C | Block::K | Block::O | Block::W => true, _ => false },
        _ => false,
    }
}

/// The k-th intensification rule of the character.
pub open spec fn intensify_entry_spec(c: char, k: int) -> Option<IntensifyEntry> {
    match c {
        '+' => if k == 0 { Some(IntensifyEntry { block: Block::C, cond: (Condition { dx: 0, dy: -1i32, can: Can::ConnectTo(Block::W, Signal::Medium) }) }) } else if k == 1 { Some(IntensifyEntry { block: Block::W, cond: (Condition { dx: 0, dy: 1, can: Can::ConnectTo(Block::C, Signal::Medium) }) }) } else if k == 2 { Some(IntensifyEntry { block: Block::K, cond: (Condition { dx: -1i32, dy: 0, can: Can::ConnectTo(Block::O, Signal::Medium) }) }) } else if k == 3 { Some(IntensifyEntry { block: Block::O, cond: (Condition { dx: 1, dy: 0, can: Can::ConnectTo(Block::K, Signal::Medium) }) }) } else if k == 4 { Some(IntensifyEntry { block: Block::A, cond: (Condition { dx: -1i32, dy: -1i32, can: Can::ConnectTo(Block::Y, Signal::Medium) }) }) } else if k == 5 { Some(IntensifyEntry { block: Block::E, cond: (Condition { dx: 1, dy: -1i32, can: Can::ConnectTo(Block::U, Signal::Medium) }) }) } else if k == 6 { Some(IntensifyEntry { block: Block::U, cond: (Condition { dx: -1i32, dy: 1, can: Can::ConnectTo(Block::E, Signal::Medium) }) }) } else if k == 7 { Some(IntensifyEntry { block: Block::Y, cond: (Condition { dx: 1, dy: 1, can: Can::ConnectTo(Block::A, Signal::Medium) }) }) } else { None },
        '.' => if k == 0 { Some(IntensifyEntry { block: Block::O, cond: (Condition { dx: 1, dy: 0, can: Can::ConnectTo(Block::K, Signal::Medium) }) }) } else if k == 1 { Some(IntensifyEntry { block: Block::K, cond: (Condition { dx: -1i32, dy: 0, can: Can::ConnectTo(Block::O, Signal::Medium) }) }) } else if k == 2 { Some(IntensifyEntry { block: Block::W, cond: (Condition { dx: 0, dy: 1, can: Can::ConnectTo(Block::C, Signal::Medium) }) }) } else { None },
        '\'' => if k == 0 { Some(IntensifyEntry { block: Block::O, cond: (Condition { dx: 1, dy: 0, can: Can::ConnectTo(Block::K, Signal::Medium) }) }) } else if k == 1 { Some(IntensifyEntry { block: Block::K, cond: (Condition { dx: -1i32, dy: 0, can: Can::ConnectTo(Block::O, Signal::Medium) }) }) } else if k == 2 { Some(IntensifyEntry { block: Block::C, cond: (Condition { dx: 0, dy: -1i32, can: Can::ConnectTo(Block::W, Signal::Medium) }) }) } else { None },
        '>' => if k == 0 { Some(IntensifyEntry { block: Block::K, cond: (Condition { dx: -1i32, dy: 0, can: Can::ConnectTo(Block::O, Signal::Medium) }) }) } else { None },
        '<' => if k == 0 { Some(IntensifyEntry { block: Block::O, cond: (Condition { dx: 1, dy: 0, can: Can::ConnectTo(Block::K, Signal::Medium) }) }) } else { None },
        '^' => if k == 0 { Some(IntensifyEntry { block: Block::W, cond: (Condition { dx: 0, dy: 1, can: Can::ConnectTo(Block::C, Signal::Medium) }) }) } else { None },
        'v' => if k == 0 { Some(IntensifyEntry { block: Block::C, cond: (Condition { dx: 0, dy: -1i32, can: Can::ConnectTo(Block::W, Signal::Medium) }) }) } else { None },
        'o' => if k == 0 { Some(IntensifyEntry { block: Block::O, cond: (Condition { dx: 1, dy: 0, can: Can::ConnectTo(Block::K, Signal::Medium) }) }) } else if k == 1 { Some(IntensifyEntry { block: Block::K, cond: (Condition { dx: -1i32, dy: 0, can: Can::ConnectTo(Block::O, Signal::Medium) }) }) } else if k == 2 { Some(IntensifyEntry { block: Block::C, cond: (Condition { dx: 0, dy: -1i32, can: Can::ConnectTo(Block::W, Signal::Medium) }) }) } else if k == 3 { Some(IntensifyEntry { block: Block::W, cond: (Condition { dx: 0, dy: 1, can: Can::ConnectTo(Block::C, Signal::Medium) }) }) } else { None },
        'O' => if k == 0 { Some(IntensifyEntry { block: Block::O, cond: (Condition { dx: 1, dy: 0, can: Can::ConnectTo(Block::K, Signal::Medium) }) }) } else if k == 1 { Some(IntensifyEntry { block: Block::K, cond: (Condition { dx: -1i32, dy: 0, can: Can::ConnectTo(Block::O, Signal::Medium) }) }) } else if k == 2 { Some(IntensifyEntry { block: Block::C, cond: (Condition { dx: 0, dy: -1i32, can: Can::ConnectTo(Block::W, Signal::Medium) }) }) } else if k == 3 { Some(IntensifyEntry { block: Block::W, cond: (Condition { dx: 0, dy: 1, can: Can::ConnectTo(Block::C, Signal::Medium) }) }) } else { None },
        '*' => if k == 0 { Some(IntensifyEntry { block: Block::O, cond: (Condition { dx: 1, dy: 0, can: Can::ConnectTo(Block::K, Signal::Medium) }) }) } else if k == 1 { Some(IntensifyEntry { block: Block::K, cond: (Condition { dx: -1i32, dy: 0, can: Can::ConnectTo(Block::O, Signal::Medium) }) }) } else if k == 2 { Some(IntensifyEntry { block: Block::C, cond: (Condition { dx: 0, dy: -1i32, can: Can::ConnectTo(Block::W, Signal::Medium) }) }) } else if k == 3 { Some(IntensifyEntry { block: Block::W, cond: (Condition { dx: 0, dy: 1, can: Can::ConnectTo(Block::C, Signal::Medium) }) }) } else { None },
        '#' => if k == 0 { Some(IntensifyEntry { block: Block::O, cond: (Condition { dx: 1, dy: 0, can: Can::ConnectTo(Block::K, Signal::Medium) }) }) } else if k == 1 { Some(IntensifyEntry { block: Block::K, cond: (Condition { dx: -1i32, dy: 0, can: Can::ConnectTo(Block::O, Signal::Medium) }) }) } else if k == 2 { Some(IntensifyEntry { block: Block::C, cond: (Condition { dx: 0, dy: -1i32, can: Can::ConnectTo(Block::W, Signal::Medium) }) }) } else if k == 3 { Some(IntensifyEntry { block: Block::W, cond: (Condition { dx: 0, dy: 1, can: Can::ConnectTo(Block::C, Signal::Medium) }) }) } else { None },
        _ => None,
    }
}

/// The k-th intensification rule of the character.
pub fn intensify_entry(c: char, k: usize) -> (r: Option<IntensifyEntry>)
    ensures
        r == intensify_entry_spec(c, k as int),
{
    match c {
        '+' => if k == 0 { Some(IntensifyEntry { block: Block::C, cond: (Condition { dx: 0, dy: -1i32, can: Can::ConnectTo(Block::W, Signal::Medium) }) }) } else if k == 1 { Some(IntensifyEntry { block: Block::W, cond: (Condition { dx: 0, dy: 1, can: Can::ConnectTo(Block::C, Signal::Medium) }) }) } else if k == 2 { Some(IntensifyEntry { block: Block::K, cond: (Condition { dx: -1i32, dy: 0, can: Can::ConnectTo(Block::O, Signal::Medium) }) }) } else if k == 3 { Some(IntensifyEntry { block: Block::O, cond: (Condition { dx: 1, dy: 0, can: Can::ConnectTo(Block::K, Signal::Medium) }) }) } else if k == 4 { Some(IntensifyEntry { block: Block::A, cond: (Condition { dx: -1i32, dy: -1i32, can: Can::ConnectTo(Block::Y, Signal::Medium) }) }) } else if k == 5 { Some(IntensifyEntry { block: Block::E, cond: (Condition { dx: 1, dy: -1i32, can: Can::ConnectTo(Block::U, Signal::Medium) }) }) } else if k == 6 { Some(IntensifyEntry { block: Block::U, cond: (Condition { dx: -1i32, dy: 1, can: Can::ConnectTo(Block::E, Signal::Medium) }) }) } else if k == 7 { Some(IntensifyEntry { block: Block::Y, cond: (Condition { dx: 1, dy: 1, can: Can::ConnectTo(Block::A, Signal::Medium) }) }) } else { None },
        '.' => if k == 0 { Some(IntensifyEntry { block: Block::O, cond: (Condition { dx: 1, dy: 0, can: Can::ConnectTo(Block::K, Signal::Medium) }) }) } else if k == 1 { Some(IntensifyEntry { block: Block::K, cond: (Condition { dx: -1i32, dy: 0, can: Can::ConnectTo(Block::O, Signal::Medium) }) }) } else if k == 2 { Some(IntensifyEntry { block: Block::W, cond: (Condition { dx: 0, dy: 1, can: Can::ConnectTo(Block::C, Signal::Medium) }) }) } else { None },
        '\'' => if k == 0 { Some(IntensifyEntry { block: Block::O, cond: (Condition { dx: 1, dy: 0, can: Can::ConnectTo(Block::K, Signal::Medium) }) }) } else if k == 1 { Some(IntensifyEntry { block: Block::K, cond: (Condition { dx: -1i32, dy: 0, can: Can::ConnectTo(Block::O, Signal::Medium) }) }) } else if k == 2 { Some(IntensifyEntry { block: Block::C, cond: (Condition { dx: 0, dy: -1i32, can: Can::ConnectTo(Block::W, Signal::Medium) }) }) } else { None },
        '>' => if k == 0 { Some(IntensifyEntry { block: Block::K, cond: (Condition { dx: -1i32, dy: 0, can: Can::ConnectTo(Block::O, Signal::Medium) }) }) } else { None },
        '<' => if k == 0 { Some(IntensifyEntry { block: Block::O, cond: (Condition { dx: 1, dy: 0, can: Can::ConnectTo(Block::K, Signal::Medium) }) }) } else { None },
        '^' => if k == 0 { Some(IntensifyEntry { block: Block::W, cond: (Condition { dx: 0, dy: 1, can: Can::ConnectTo(Block::C, Signal::Medium) }) }) } else { None },
        'v' => if k == 0 { Some(IntensifyEntry { block: Block::C, cond: (Condition { dx: 0, dy: -1i32, can: Can::ConnectTo(Block::W, Signal::Medium) }) }) } else { None },
        'o' => if k == 0 { Some(IntensifyEntry { block: Block::O, cond: (Condition { dx: 1, dy: 0, can: Can::ConnectTo(Block::K, Signal::Medium) }) }) } else if k == 1 { Some(IntensifyEntry { block: Block::K, cond: (Condition { dx: -1i32, dy: 0, can: Can::ConnectTo(Block::O, Signal::Medium) }) }) } else if k == 2 { Some(IntensifyEntry { block: Block::C, cond: (Condition { dx: 0, dy: -1i32, can: Can::ConnectTo(Block::W, Signal::Medium) }) }) } else if k == 3 { Some(IntensifyEntry { block: Block::W, cond: (Condition { dx: 0, dy: 1, can: Can::ConnectTo(Block::C, Signal::Medium) }) }) } else { None },
        'O' => if k == 0 { Some(IntensifyEntry { block: Block::O, cond: (Condition { dx: 1, dy: 0, can: Can::ConnectTo(Block::K, Signal::Medium) }) }) } else if k == 1 { Some(IntensifyEntry { block: Block::K, cond: (Condition { dx: -1i32, dy: 0, can: Can::ConnectTo(Block::O, Signal::Medium) }) }) } else if k == 2 { Some(IntensifyEntry { block: Block::C, cond: (Condition { dx: 0, dy: -1i32, can: Can::ConnectTo(Block::W, Signal::Medium) }) }) } else if k == 3 { Some(IntensifyEntry { block: Block::W, cond: (Condition { dx: 0, dy: 1, can: Can::ConnectTo(Block::C, Signal::Medium) }) }) } else { None },
        '*' => if k == 0 { Some(IntensifyEntry { block: Block::O, cond: (Condition { dx: 1, dy: 0, can: Can::ConnectTo(Block::K, Signal::Medium) }) }) } else if k == 1 { Some(IntensifyEntry { block: Block::K, cond: (Condition { dx: -1i32, dy: 0, can: Can::ConnectTo(Block::O, Signal::Medium) }) }) } else if k == 2 { Some(IntensifyEntry { block: Block::C, cond: (Condition { dx: 0, dy: -1i32, can: Can::ConnectTo(Block::W, Signal::Medium) }) }) } else if k == 3 { Some(IntensifyEntry { block: Block::W, cond: (Condition { dx: 0, dy: 1, can: Can::ConnectTo(Block::C, Signal::Medium) }) }) } else { None },
        '#' => if k == 0 { Some(IntensifyEntry { block: Block::O, cond: (Condition { dx: 1, dy: 0, can: Can::ConnectTo(Block::K, Signal::Medium) }) }) } else if k == 1 { Some(IntensifyEntry { block: Block::K, cond: (Condition { dx: -1i32, dy: 0, can: Can::ConnectTo(Block::O, Signal::Medium) }) }) } else if k == 2 { Some(IntensifyEntry { block: Block::C, cond: (Condition { dx: 0, dy: -1i32, can: Can::ConnectTo(Block::W, Signal::Medium) }) }) } else if k == 3 { Some(IntensifyEntry { block: Block::W, cond: (Condition { dx: 0, dy: 1, can: Can::ConnectTo(Block::C, Signal::Medium) }) }) } else { None },
        _ => None,
    }
}

/// The k-th intended behaviour of the character.
pub open spec fn intended_entry_spec(c: char, k: int) -> Option<IntendedEntry> {
    match c {
        '.' => if k == 0 { Some(IntendedEntry { b1: Block::O, b2: Some(Block::W), b3: None, frag: Fragment::Arc((PointBlock { dx: 0, dy: 0, block: Block::O }), (PointBlock { dx: 0, dy: 0, block: Block::W }), 2), frag2: None, frag3: None }) } else if k == 1 { Some(IntendedEntry { b1: Block::K, b2: Some(Block::W), b3: None, frag: Fragment::Arc((PointBlock { dx: 0, dy: 0, block: Block::W }), (PointBlock { dx: 0, dy: 0, block: Block::K }), 2), frag2: None, frag3: None }) } else if k == 2 { Some(IntendedEntry { b1: Block::K, b2: Some(Block::O), b3: None, frag: Fragment::Line((PointBlock { dx: 0, dy: 0, block: Block::K }), (PointBlock { dx: 0, dy: 0, block: Block::O })), frag2: None, frag3: None }) } else { None },
        '\'' => if k == 0 { Some(IntendedEntry { b1: Block::C, b2: Some(Block::O), b3: None, frag: Fragment::Arc((PointBlock { dx: 0, dy: 0, block: Block::C }), (PointBlock { dx: 0, dy: 0, block: Block::O }), 2), frag2: None, frag3: None }) } else if k == 1 { Some(IntendedEntry { b1: Block::K, b2: Some(Block::C), b3: None, frag: Fragment::Arc((PointBlock { dx: 0, dy: 0, block: Block::K }), (PointBlock { dx: 0, dy: 0, block: Block::C }), 2), frag2: None, frag3: None }) } else if k == 2 { Some(IntendedEntry { b1: Block::K, b2: Some(Block::O), b3: None, frag: Fragment::Line((PointBlock { dx: 0, dy: 0, block: Block::K }), (PointBlock { dx: 0, dy: 0, block: Block::O })), frag2: None, frag3: None }) } else { None },
        _ => None,
    }
}

/// The k-th intended behaviour of the character.
pub fn intended_entry(c: char, k: usize) -> (r: Option<IntendedEntry>)
    ensures
        r == intended_entry_spec(c, k as int),
{
    match c {
        '.' => if k == 0 { Some(IntendedEntry { b1: Block::O, b2: Some(Block::W), b3: None, frag: Fragment::Arc((PointBlock { dx: 0, dy: 0, block: Block::O }), (PointBlock { dx: 0, dy: 0, block: Block::W }), 2), frag2: None, frag3: None }) } else if k == 1 { Some(IntendedEntry { b1: Block::K, b2: Some(Block::W), b3: None, frag: Fragment::Arc((PointBlock { dx: 0, dy: 0, block: Block::W }), (PointBlock { dx: 0, dy: 0, block: Block::K }), 2), frag2: None, frag3: None }) } else if k == 2 { Some(IntendedEntry { b1: Block::K, b2: Some(Block::O), b3: None, frag: Fragment::Line((PointBlock { dx: 0, dy: 0, block: Block::K }), (PointBlock { dx: 0, dy: 0, block: Block::O })), frag2: None, frag3: None }) } else { None },
        '\'' => if k == 0 { Some(IntendedEntry { b1: Block::C, b2: Some(Block::O), b3: None, frag: Fragment::Arc((PointBlock { dx: 0, dy: 0, block: Block::C }), (PointBlock { dx: 0, dy: 0, block: Block::O }), 2), frag2: None, frag3: None }) } else if k == 1 { Some(IntendedEntry { b1: Block::K, b2: Some(Block::C), b3: None, frag: Fragment::Arc((PointBlock { dx: 0, dy: 0, block: Block::K }), (PointBlock { dx: 0, dy: 0, block: Block::C }), 2), frag2: None, frag3: None }) } else if k == 2 { Some(IntendedEntry { b1: Block::K, b2: Some(Block::O), b3: None, frag: Fragment::Line((PointBlock { dx: 0, dy: 0, block: Block::K }), (PointBlock { dx: 0, dy: 0, block: Block::O })), frag2: None, frag3: None }) } else { None },
        _ => None,
    }
}

/// The k-th default property of the character.
pub open spec fn property_entry_spec(c: char, k: int) -> Option<PropertyEntry> {
    match c {
        '-' => if k == 0 { Some(PropertyEntry { block: Block::K, signal: Signal::Strong, frag: Fragment::Line((PointBlock { dx: 0, dy: 0, block: Block::K }), (PointBlock { dx: 0, dy: 0, block: Block::O })), frag2: None }) } else if k == 1 { Some(PropertyEntry { block: Block::O, signal: Signal::Strong, frag: Fragment::Line((PointBlock { dx: 0, dy: 0, block: Block::K }), (PointBlock { dx: 0, dy: 0, block: Block::O })), frag2: None }) } else { None },
        '=' => if k == 0 { Some(PropertyEntry { block: Block::K, signal: Signal::Strong, frag: Fragment::DashedLine((PointBlock { dx: 0, dy: 0, block: Block::K }), (PointBlock { dx: 0, dy: 0, block: Block::O })), frag2: None }) } else if k == 1 { Some(PropertyEntry { block: Block::O, signal: Signal::Strong, frag: Fragment::DashedLine((PointBlock { dx: 0, dy: 0, block: Block::K }), (PointBlock { dx: 0, dy: 0, block: Block::O })), frag2: None }) } else { None },
        '|' => if k == 0 { Some(PropertyEntry { block: Block::C, signal: Signal::Strong, frag: Fragment::Line((PointBlock { dx: 0, dy: 0, block: Block::C }), (PointBlock { dx: 0, dy: 0, block: Block::W })), frag2: None }) } else if k == 1 { Some(PropertyEntry { block: Block::W, signal: Signal::Strong, frag: Fragment::Line((PointBlock { dx: 0, dy: 0, block: Block::C }), (PointBlock { dx: 0, dy: 0, block: Block::W })), frag2: None }) } else { None },
        ':' => if k == 0 { Some(PropertyEntry { block: Block::C, signal: Signal::Strong, frag: Fragment::DashedLine((PointBlock { dx: 0, dy: 0, block: Block::C }), (PointBlock { dx: 0, dy: 0, block: Block::W })), frag2: None }) } else if k == 1 { Some(PropertyEntry { block: Block::W, signal: Signal::Strong, frag: Fragment::DashedLine((PointBlock { dx: 0, dy: 0, block: Block::C }), (PointBlock { dx: 0, dy: 0, block: Block::W })), frag2: None }) } else { None },
        '_' => if k == 0 { Some(PropertyEntry { block: Block::U, signal: Signal::Strong, frag: Fragment::Line((PointBlock { dx: 0, dy: 0, block: Block::U }), (PointBlock { dx: 0, dy: 0, block: Block::Y })), frag2: None }) } else if k == 1 { Some(PropertyEntry { block: Block::Y, signal: Signal::Strong, frag: Fragment::Line((PointBlock { dx: 0, dy: 0, block: Block::U }), (PointBlock { dx: 0, dy: 0, block: Block::Y })), frag2: None }) } else { None },
        '/' => if k == 0 { Some(PropertyEntry { block: Block::E, signal: Signal::Strong, frag: Fragment::Line((PointBlock { dx: 0, dy: 0, block: Block::U }), (PointBlock { dx: 0, dy: 0, block: Block::E })), frag2: None }) } else if k == 1 { Some(PropertyEntry { block: Block::U, signal: Signal::Strong, frag: Fragment::Line((PointBlock { dx: 0, dy: 0, block: Block::U }), (PointBlock { dx: 0, dy: 0, block: Block::E })), frag2: None }) } else { None },
        '\\' => if k == 0 { Some(PropertyEntry { block: Block::A, signal: Signal::Strong, frag: Fragment::Line((PointBlock { dx: 0, dy: 0, block: Block::A }), (PointBlock { dx: 0, dy: 0, block: Block::Y })), frag2: None }) } else if k == 1 { Some(PropertyEntry { block: Block::Y, signal: Signal::Strong, frag: Fragment::Line((PointBlock { dx: 0, dy: 0, block: Block::A }), (PointBlock { dx: 0, dy: 0, block: Block::Y })), frag2: None }) } else { None },
        '+' => if k == 0 { Some(PropertyEntry { block: Block::C, signal: Signal::Medium, frag: Fragment::Line((PointBlock { dx: 0, dy: 0, block: Block::M }), (PointBlock { dx: 0, dy: 0, block: Block::C })), frag2: None }) } else if k == 1 { Some(PropertyEntry { block: Block::W, signal: Signal::Medium, frag: Fragment::Line((PointBlock { dx: 0, dy: 0, block: Block::M }), (PointBlock { dx: 0, dy: 0, block: Block::W })), frag2: None }) } else if k == 2 { Some(PropertyEntry { block: Block::K, signal: Signal::Medium, frag: Fragment::Line((PointBlock { dx: 0, dy: 0, block: Block::M }), (PointBlock { dx: 0, dy: 0, block: Block::K })), frag2: None }) } else if k == 3 { Some(PropertyEntry { block: Block::O, signal: Signal::Medium, frag: Fragment::Line((PointBlock { dx: 0, dy: 0, block: Block::M }), (PointBlock { dx: 0, dy: 0, block: Block::O })), frag2: None }) } else if k == 4 { Some(PropertyEntry { block: Block::A, signal: Signal::Medium, frag: Fragment::Line((PointBlock { dx: 0, dy: 0, block: Block::M }), (PointBlock { dx: 0, dy: 0, block: Block::A })), frag2: None }) } else if k == 5 { Some(PropertyEntry { block: Block::E, signal: Signal::Medium, frag: Fragment::Line((PointBlock { dx: 0, dy: 0, block: Block::M }), (PointBlock { dx: 0, dy: 0, block: Block::E })), frag2: None }) } else if k == 6 { Some(PropertyEntry { block: Block::U, signal: Signal::Medium, frag: Fragment::Line((PointBlock { dx: 0, dy: 0, block: Block::M }), (PointBlock { dx: 0, dy: 0, block: Block::U })), frag2: None }) } else if k == 7 { Some(PropertyEntry { block: Block::Y, signal: Signal::Medium, frag: Fragment::Line((PointBlock { dx: 0, dy: 0, block: Block::M }), (PointBlock { dx: 0, dy: 0, block: Block::Y })), frag2: None }) } else { None },
        '>' => if k == 0 { Some(PropertyEntry { block: Block::K, signal: Signal::Medium, frag: Fragment::ArrowLine((PointBlock { dx: 0, dy: 0, block: Block::K }), (PointBlock { dx: 0, dy: 0, block: Block::O })), frag2: None }) } else { None },
        '<' => if k == 0 { Some(PropertyEntry { block: Block::O, signal: Signal::Medium, frag: Fragment::ArrowLine((PointBlock { dx: 0, dy: 0, block: Block::O }), (PointBlock { dx: 0, dy: 0, block: Block::K })), frag2: None }) } else { None },
        '^' => if k == 0 { Some(PropertyEntry { block: Block::W, signal: Signal::Medium, frag: Fragment::ArrowLine((PointBlock { dx: 0, dy: 0, block: Block::W }), (PointBlock { dx: 0, dy: 0, block: Block::C })), frag2: None }) } else { None },
        'v' => if k == 0 { Some(PropertyEntry { block: Block::C, signal: Signal::Medium, frag: Fragment::ArrowLine((PointBlock { dx: 0, dy: 0, block: Block::C }), (PointBlock { dx: 0, dy: 0, block: Block::W })), frag2: None }) } else { None },
        'o' => if k == 0 { Some(PropertyEntry { block: Block::O, signal: Signal::Medium, frag: Fragment::CircleOpenLine((PointBlock { dx: 0, dy: 0, block: Block::M }), (PointBlock { dx: 0, dy: 0, block: Block::O })), frag2: None }) } else if k == 1 { Some(PropertyEntry { block: Block::K, signal: Signal::Medium, frag: Fragment::CircleOpenLine((PointBlock { dx: 0, dy: 0, block: Block::M }), (PointBlock { dx: 0, dy: 0, block: Block::K })), frag2: None }) } else if k == 2 { Some(PropertyEntry { block: Block::C, signal: Signal::Medium, frag: Fragment::CircleOpenLine((PointBlock { dx: 0, dy: 0, block: Block::M }), (PointBlock { dx: 0, dy: 0, block: Block::C })), frag2: None }) } else if k == 3 { Some(PropertyEntry { block: Block::W, signal: Signal::Medium, frag: Fragment::CircleOpenLine((PointBlock { dx: 0, dy: 0, block: Block::M }), (PointBlock { dx: 0, dy: 0, block: Block::W })), frag2: None }) } else { None },
        'O' => if k == 0 { Some(PropertyEntry { block: Block::O, signal: Signal::Medium, frag: Fragment::BigCircleOpenLine((PointBlock { dx: 0, dy: 0, block: Block::M }), (PointBlock { dx: 0, dy: 0, block: Block::O })), frag2: None }) } else if k == 1 { Some(PropertyEntry { block: Block::K, signal: Signal::Medium, frag: Fragment::BigCircleOpenLine((PointBlock { dx: 0, dy: 0, block: Block::M }), (PointBlock { dx: 0, dy: 0, block: Block::K })), frag2: None }) } else if k == 2 { Some(PropertyEntry { block: Block::C, signal: Signal::Medium, frag: Fragment::BigCircleOpenLine((PointBlock { dx: 0, dy: 0, block: Block::M }), (PointBlock { dx: 0, dy: 0, block: Block::C })), frag2: None }) } else if k == 3 { Some(PropertyEntry { block: Block::W, signal: Signal::Medium, frag: Fragment::BigCircleOpenLine((PointBlock { dx: 0, dy: 0, block: Block::M }), (PointBlock { dx: 0, dy: 0, block: Block::W })), frag2: None }) } else { None },
        '*' => if k == 0 { Some(PropertyEntry { block: Block::O, signal: Signal::Medium, frag: Fragment::CircleStartLine((PointBlock { dx: 0, dy: 0, block: Block::M }), (PointBlock { dx: 0, dy: 0, block: Block::O })), frag2: None }) } else if k == 1 { Some(PropertyEntry { block: Block::K, signal: Signal::Medium, frag: Fragment::CircleStartLine((PointBlock { dx: 0, dy: 0, block: Block::M }), (PointBlock { dx: 0, dy: 0, block: Block::K })), frag2: None }) } else if k == 2 { Some(PropertyEntry { block: Block::C, signal: Signal::Medium, frag: Fragment::CircleStartLine((PointBlock { dx: 0, dy: 0, block: Block::M }), (PointBlock { dx: 0, dy: 0, block: Block::C })), frag2: None }) } else if k == 3 { Some(PropertyEntry { block: Block::W, signal: Signal::Medium, frag: Fragment::CircleStartLine((PointBlock { dx: 0, dy: 0, block: Block::M }), (PointBlock { dx: 0, dy: 0, block: Block::W })), frag2: None }) } else { None },
        '#' => if k == 0 { Some(PropertyEntry { block: Block::O, signal: Signal::Medium, frag: Fragment::SquareStartLine((PointBlock { dx: 0, dy: 0, block: Block::M }), (PointBlock { dx: 0, dy: 0, block: Block::O })), frag2: None }) } else if k == 1 { Some(PropertyEntry { block: Block::K, signal: Signal::Medium, frag: Fragment::SquareStartLine((PointBlock { dx: 0, dy: 0, block: Block::M }), (PointBlock { dx: 0, dy: 0, block: Block::K })), frag2: None }) } else if k == 2 { Some(PropertyEntry { block: Block::C, signal: Signal::Medium, frag: Fragment::SquareStartLine((PointBlock { dx: 0, dy: 0, block: Block::M }), (PointBlock { dx: 0, dy: 0, block: Block::C })), frag2: None }) } else if k == 3 { Some(PropertyEntry { block: Block::W, signal: Signal::Medium, frag: Fragment::SquareStartLine((PointBlock { dx: 0, dy: 0, block: Block::M }), (PointBlock { dx: 0, dy: 0, block: Block::W })), frag2: None }) } else { None },
        '\u{2500}' => if k == 0 { Some(PropertyEntry { block: Block::K, signal: Signal::Strong, frag: Fragment::Line((PointBlock { dx: 0, dy: 0, block: Block::K }), (PointBlock { dx: 0, dy: 0, block: Block::O })), frag2: None }) } else if k == 1 { Some(PropertyEntry { block: Block::O, signal: Signal::Strong, frag: Fragment::Line((PointBlock { dx: 0, dy: 0, block: Block::K }), (PointBlock { dx: 0, dy: 0, block: Block::O })), frag2: None }) } else { None },
        '\u{2502}' => if k == 0 { Some(PropertyEntry { block: Block::C, signal: Signal::Strong, frag: Fragment::Line((PointBlock { dx: 0, dy: 0, block: Block::C }), (PointBlock { dx: 0, dy: 0, block: Block::W })), frag2: None }) } else if k == 1 { Some(PropertyEntry { block: Block::W, signal: Signal::Strong, frag: Fragment::Line((PointBlock { dx: 0, dy: 0, block: Block::C }), (PointBlock { dx: 0, dy: 0, block: Block::W })), frag2: None }) } else { None },
        '\u{250c}' => if k == 0 { Some(PropertyEntry { block: Block::O, signal: Signal::Strong, frag: Fragment::Line((PointBlock { dx: 0, dy: 0, block: Block::M }), (PointBlock { dx: 0, dy: 0, block: Block::O })), frag2: None }) } else if k == 1 { Some(PropertyEntry { block: Block::W, signal: Signal::Strong, frag: Fragment::Line((PointBlock { dx: 0, dy: 0, block: Block::M }), (PointBlock { dx: 0, dy: 0, block: Block::W })), frag2: None }) } else { None },
        '\u{2510}' => if k == 0 { Some(PropertyEntry { block: Block::K, signal: Signal::Strong, frag: Fragment::Line((PointBlock { dx: 0, dy: 0, block: Block::M }), (PointBlock { dx: 0, dy: 0, block: Block::K })), frag2: None }) } else if k == 1 { Some(PropertyEntry { block: Block::W, signal: Signal::Strong, frag: Fragment::Line((PointBlock { dx: 0, dy: 0, block: Block::M }), (PointBlock { dx: 0, dy: 0, block: Block::W })), frag2: None }) } else { None },
        '\u{2514}' => if k == 0 { Some(PropertyEntry { block: Block::C, signal: Signal::Strong, frag: Fragment::Line((PointBlock { dx: 0, dy: 0, block: Block::M }), (PointBlock { dx: 0, dy: 0, block: Block::C })), frag2: None }) } else if k == 1 { Some(PropertyEntry { block: Block::O, signal: Signal::Strong, frag: Fragment::Line((PointBlock { dx: 0, dy: 0, block: Block::M }), (PointBlock { dx: 0, dy: 0, block: Block::O })), frag2: None }) } else { None },
        '\u{2518}' => if k == 0 { Some(PropertyEntry { block: Block::C, signal: Signal::Strong, frag: Fragment::Line((PointBlock { dx: 0, dy: 0, block: Block::M }), (PointBlock { dx: 0, dy: 0, block: Block::C })), frag2: None }) } else if k == 1 { Some(PropertyEntry { block: Block::K, signal: Signal::Strong, frag: Fragment::Line((PointBlock { dx: 0, dy: 0, block: Block::M }), (PointBlock { dx: 0, dy: 0, block: Block::K })), frag2: None }) } else { None },
        '\u{251c}' => if k == 0 { Some(PropertyEntry { block: Block::C, signal: Signal::Strong, frag: Fragment::Line((PointBlock { dx: 0, dy: 0, block: Block::M }), (PointBlock { dx: 0, dy: 0, block: Block::C })), frag2: None }) } else if k == 1 { Some(PropertyEntry { block: Block::W, signal: Signal::Strong, frag: Fragment::Line((PointBlock { dx: 0, dy: 0, block: Block::M }), (PointBlock { dx: 0, dy: 0, block: Block::W })), frag2: None }) } else if k == 2 { Some(PropertyEntry { block: Block::O, signal: Signal::Strong, frag: Fragment::Line((PointBlock { dx: 0, dy: 0, block: Block::M }), (PointBlock { dx: 0, dy: 0, block: Block::O })), frag2: None }) } else { None },
        '\u{2524}' => if k == 0 { Some(PropertyEntry { block: Block::C, signal: Signal::Strong, frag: Fragment::Line((PointBlock { dx: 0, dy: 0, block: Block::M }), (PointBlock { dx: 0, dy: 0, block: Block::C })), frag2: None }) } else if k == 1 { Some(PropertyEntry { block: Block::W, signal: Signal::Strong, frag: Fragment::Line((PointBlock { dx: 0, dy: 0, block: Block::M }), (PointBlock { dx: 0, dy: 0, block: Block::W })), frag2: None }) } else if k == 2 { Some(PropertyEntry { block: Block::K, signal: Signal::Strong, frag: Fragment::Line((PointBlock { dx: 0, dy: 0, block: Block::M }), (PointBlock { dx: 0, dy: 0, block: Block::K })), frag2: None }) } else { None },
        '\u{252c}' => if k == 0 { Some(PropertyEntry { block: Block::K, signal: Signal::Strong, frag: Fragment::Line((PointBlock { dx: 0, dy: 0, block: Block::M }), (PointBlock { dx: 0, dy: 0, block: Block::K })), frag2: None }) } else if k == 1 { Some(PropertyEntry { block: Block::O, signal: Signal::Strong, frag: Fragment::Line((PointBlock { dx: 0, dy: 0, block: Block::M }), (PointBlock { dx: 0, dy: 0, block: Block::O })), frag2: None }) } else if k == 2 { Some(PropertyEntry { block: Block::W, signal: Signal::Strong, frag: Fragment::Line((PointBlock { dx: 0, dy: 0, block: Block::M }), (PointBlock { dx: 0, dy: 0, block: Block::W })), frag2: None }) } else { None },
        '\u{2534}' => if k == 0 { Some(PropertyEntry { block: Block::K, signal: Signal::Strong, frag: Fragment::Line((PointBlock { dx: 0, dy: 0, block: Block::M }), (PointBlock { dx: 0, dy: 0, block: Block::K })), frag2: None }) } else if k == 1 { Some(PropertyEntry { block: Block::O, signal: Signal::Strong, frag: Fragment::Line((PointBlock { dx: 0, dy: 0, block: Block::M }), (PointBlock { dx: 0, dy: 0, block: Block::O })), frag2: None }) } else if k == 2 { Some(PropertyEntry { block: Block::C, signal: Signal::Strong, frag: Fragment::Line((PointBlock { dx: 0, dy: 0, block: Block::M }), (PointBlock { dx: 0, dy: 0, block: Block::C })), frag2: None }) } else { None },
        '\u{253c}' => if k == 0 { Some(PropertyEntry { block: Block::C, signal: Signal::Strong, frag: Fragment::Line((PointBlock { dx: 0, dy: 0, block: Block::M }), (PointBlock { dx: 0, dy: 0, block: Block::C })), frag2: None }) } else if k == 1 { Some(PropertyEntry { block: Block::W, signal: Signal::Strong, frag: Fragment::Line((PointBlock { dx: 0, dy: 0, block: Block::M }), (PointBlock { dx: 0, dy: 0, block: Block::W })), frag2: None }) } else if k == 2 { Some(PropertyEntry { block: Block::K, signal: Signal::Strong, frag: Fragment::Line((PointBlock { dx: 0, dy: 0, block: Block::M }), (PointBlock { dx: 0, dy: 0, block: Block::K })), frag2: None }) } else if k == 3 { Some(PropertyEntry { block: Block::O, signal: Signal::Strong, frag: Fragment::Line((PointBlock { dx: 0, dy: 0, block: Block::M }), (PointBlock { dx: 0, dy: 0, block: Block::O })), frag2: None }) } else { None },
        _ => None,
    }
}

/// The k-th default property of the character.
pub fn property_entry(c: char, k: usize) -> (r: Option<PropertyEntry>)
    ensures
        r == property_entry_spec(c, k as int),
{
    match c {
        '-' => if k == 0 { Some(PropertyEntry { block: Block::K, signal: Signal::Strong, frag: Fragment::Line((PointBlock { dx: 0, dy: 0, block: Block::K }), (PointBlock { dx: 0, dy: 0, block: Block::O })), frag2: None }) } else if k == 1 { Some(PropertyEntry { block: Block::O, signal: Signal::Strong, frag: Fragment::Line((PointBlock { dx: 0, dy: 0, block: Block::K }), (PointBlock { dx: 0, dy: 0, block: Block::O })), frag2: None }) } else { None },
        '=' => if k == 0 { Some(PropertyEntry { block: Block::K, signal: Signal::Strong, frag: Fragment::DashedLine((PointBlock { dx: 0, dy: 0, block: Block::K }), (PointBlock { dx: 0, dy: 0, block: Block::O })), frag2: None }) } else if k == 1 { Some(PropertyEntry { block: Block::O, signal: Signal::Strong, frag: Fragment::DashedLine((PointBlock { dx: 0, dy: 0, block: Block::K }), (PointBlock { dx: 0, dy: 0, block: Block::O })), frag2: None }) } else { None },
        '|' => if k == 0 { Some(PropertyEntry { block: Block::C, signal: Signal::Strong, frag: Fragment::Line((PointBlock { dx: 0, dy: 0, block: Block::C }), (PointBlock { dx: 0, dy: 0, block: Block::W })), frag2: None }) } else if k == 1 { Some(PropertyEntry { block: Block::W, signal: Signal::Strong, frag: Fragment::Line((PointBlock { dx: 0, dy: 0, block: Block::C }), (PointBlock { dx: 0, dy: 0, block: Block::W })), frag2: None }) } else { None },
        ':' => if k == 0 { Some(PropertyEntry { block: Block::C, signal: Signal::Strong, frag: Fragment::DashedLine((PointBlock { dx: 0, dy: 0, block: Block::C }), (PointBlock { dx: 0, dy: 0, block: Block::W })), frag2: None }) } else if k == 1 { Some(PropertyEntry { block: Block::W, signal: Signal::Strong, frag: Fragment::DashedLine((PointBlock { dx: 0, dy: 0, block: Block::C }), (PointBlock { dx: 0, dy: 0, block: Block::W })), frag2: None }) } else { None },
        '_' => if k == 0 { Some(PropertyEntry { block: Block::U, signal: Signal::Strong, frag: Fragment::Line((PointBlock { dx: 0, dy: 0, block: Block::U }), (PointBlock { dx: 0, dy: 0, block: Block::Y })), frag2: None }) } else if k == 1 { Some(PropertyEntry { block: Block::Y, signal: Signal::Strong, frag: Fragment::Line((PointBlock { dx: 0, dy: 0, block: Block::U }), (PointBlock { dx: 0, dy: 0, block: Block::Y })), frag2: None }) } else { None },
        '/' => if k == 0 { Some(PropertyEntry { block: Block::E, signal: Signal::Strong, frag: Fragment::Line((PointBlock { dx: 0, dy: 0, block: Block::U }), (PointBlock { dx: 0, dy: 0, block: Block::E })), frag2: None }) } else if k == 1 { Some(PropertyEntry { block: Block::U, signal: Signal::Strong, frag: Fragment::Line((PointBlock { dx: 0, dy: 0, block: Block::U }), (PointBlock { dx: 0, dy: 0, block: Block::E })), frag2: None }) } else { None },
        '\\' => if k == 0 { Some(PropertyEntry { block: Block::A, signal: Signal::Strong, frag: Fragment::Line((PointBlock { dx: 0, dy: 0, block: Block::A }), (PointBlock { dx: 0, dy: 0, block: Block::Y })), frag2: None }) } else if k == 1 { Some(PropertyEntry { block: Block::Y, signal: Signal::Strong, frag: Fragment::Line((PointBlock { dx: 0, dy: 0, block: Block::A }), (PointBlock { dx: 0, dy: 0, block: Block::Y })), frag2: None }) } else { None },
        '+' => if k == 0 { Some(PropertyEntry { block: Block::C, signal: Signal::Medium, frag: Fragment::Line((PointBlock { dx: 0, dy: 0, block: Block::M }), (PointBlock { dx: 0, dy: 0, block: Block::C })), frag2: None }) } else if k == 1 { Some(PropertyEntry { block: Block::W, signal: Signal::Medium, frag: Fragment::Line((PointBlock { dx: 0, dy: 0, block: Block::M }), (PointBlock { dx: 0, dy: 0, block: Block::W })), frag2: None }) } else if k == 2 { Some(PropertyEntry { block: Block::K, signal: Signal::Medium, frag: Fragment::Line((PointBlock { dx: 0, dy: 0, block: Block::M }), (PointBlock { dx: 0, dy: 0, block: Block::K })), frag2: None }) } else if k == 3 { Some(PropertyEntry { block: Block::O, signal: Signal::Medium, frag: Fragment::Line((PointBlock { dx: 0, dy: 0, block: Block::M }), (PointBlock { dx: 0, dy: 0, block: Block::O })), frag2: None }) } else if k == 4 { Some(PropertyEntry { block: Block::A, signal: Signal::Medium, frag: Fragment::Line((PointBlock { dx: 0, dy: 0, block: Block::M }), (PointBlock { dx: 0, dy: 0, block: Block::A })), frag2: None }) } else if k == 5 { Some(PropertyEntry { block: Block::E, signal: Signal::Medium, frag: Fragment::Line((PointBlock { dx: 0, dy: 0, block: Block::M }), (PointBlock { dx: 0, dy: 0, block: Block::E })), frag2: None }) } else if k == 6 { Some(PropertyEntry { block: Block::U, signal: Signal::Medium, frag: Fragment::Line((PointBlock { dx: 0, dy: 0, block: Block::M }), (PointBlock { dx: 0, dy: 0, block: Block::U })), frag2: None }) } else if k == 7 { Some(PropertyEntry { block: Block::Y, signal: Signal::Medium, frag: Fragment::Line((PointBlock { dx: 0, dy: 0, block: Block::M }), (PointBlock { dx: 0, dy: 0, block: Block::Y })), frag2: None }) } else { None },
        '>' => if k == 0 { Some(PropertyEntry { block: Block::K, signal: Signal::Medium, frag: Fragment::ArrowLine((PointBlock { dx: 0, dy: 0, block: Block::K }), (PointBlock { dx: 0, dy: 0, block: Block::O })), frag2: None }) } else { None },
        '<' => if k == 0 { Some(PropertyEntry { block: Block::O, signal: Signal::Medium, frag: Fragment::ArrowLine((PointBlock { dx: 0, dy: 0, block: Block::O }), (PointBlock { dx: 0, dy: 0, block: Block::K })), frag2: None }) } else { None },
        '^' => if k == 0 { Some(PropertyEntry { block: Block::W, signal: Signal::Medium, frag: Fragment::ArrowLine((PointBlock { dx: 0, dy: 0, block: Block::W }), (PointBlock { dx: 0, dy: 0, block: Block::C })), frag2: None }) } else { None },
        'v' => if k == 0 { Some(PropertyEntry { block: Block::C, signal: Signal::Medium, frag: Fragment::ArrowLine((PointBlock { dx: 0, dy: 0, block: Block::C }), (PointBlock { dx: 0, dy: 0, block: Block::W })), frag2: None }) } else { None },
        'o' => if k == 0 { Some(PropertyEntry { block: Block::O, signal: Signal::Medium, frag: Fragment::CircleOpenLine((PointBlock { dx: 0, dy: 0, block: Block::M }), (PointBlock { dx: 0, dy: 0, block: Block::O })), frag2: None }) } else if k == 1 { Some(PropertyEntry { block: Block::K, signal: Signal::Medium, frag: Fragment::CircleOpenLine((PointBlock { dx: 0, dy: 0, block: Block::M }), (PointBlock { dx: 0, dy: 0, block: Block::K })), frag2: None }) } else if k == 2 { Some(PropertyEntry { block: Block::C, signal: Signal::Medium, frag: Fragment::CircleOpenLine((PointBlock { dx: 0, dy: 0, block: Block::M }), (PointBlock { dx: 0, dy: 0, block: Block::C })), frag2: None }) } else if k == 3 { Some(PropertyEntry { block: Block::W, signal: Signal::Medium, frag: Fragment::CircleOpenLine((PointBlock { dx: 0, dy: 0, block: Block::M }), (PointBlock { dx: 0, dy: 0, block: Block::W })), frag2: None }) } else { None },
        'O' => if k == 0 { Some(PropertyEntry { block: Block::O, signal: Signal::Medium, frag: Fragment::BigCircleOpenLine((PointBlock { dx: 0, dy: 0, block: Block::M }), (PointBlock { dx: 0, dy: 0, block: Block::O })), frag2: None }) } else if k == 1 { Some(PropertyEntry { block: Block::K, signal: Signal::Medium, frag: Fragment::BigCircleOpenLine((PointBlock { dx: 0, dy: 0, block: Block::M }), (PointBlock { dx: 0, dy: 0, block: Block::K })), frag2: None }) } else if k == 2 { Some(PropertyEntry { block: Block::C, signal: Signal::Medium, frag: Fragment::BigCircleOpenLine((PointBlock { dx: 0, dy: 0, block: Block::M }), (PointBlock { dx: 0, dy: 0, block: Block::C })), frag2: None }) } else if k == 3 { Some(PropertyEntry { block: Block::W, signal: Signal::Medium, frag: Fragment::BigCircleOpenLine((PointBlock { dx: 0, dy: 0, block: Block::M }), (PointBlock { dx: 0, dy: 0, block: Block::W })), frag2: None }) } else { None },
        '*' => if k == 0 { Some(PropertyEntry { block: Block::O, signal: Signal::Medium, frag: Fragment::CircleStartLine((PointBlock { dx: 0, dy: 0, block: Block::M }), (PointBlock { dx: 0, dy: 0, block: Block::O })), frag2: None }) } else if k == 1 { Some(PropertyEntry { block: Block::K, signal: Signal::Medium, frag: Fragment::CircleStartLine((PointBlock { dx: 0, dy: 0, block: Block::M }), (PointBlock { dx: 0, dy: 0, block: Block::K })), frag2: None }) } else if k == 2 { Some(PropertyEntry { block: Block::C, signal: Signal::Medium, frag: Fragment::CircleStartLine((PointBlock { dx: 0, dy: 0, block: Block::M }), (PointBlock { dx: 0, dy: 0, block: Block::C })), frag2: None }) } else if k == 3 { Some(PropertyEntry { block: Block::W, signal: Signal::Medium, frag: Fragment::CircleStartLine((PointBlock { dx: 0, dy: 0, block: Block::M }), (PointBlock { dx: 0, dy: 0, block: Block::W })), frag2: None }) } else { None },
        '#' => if k == 0 { Some(PropertyEntry { block: Block::O, signal: Signal::Medium, frag: Fragment::SquareStartLine((PointBlock { dx: 0, dy: 0, block: Block::M }), (PointBlock { dx: 0, dy: 0, block: Block::O })), frag2: None }) } else if k == 1 { Some(PropertyEntry { block: Block::K, signal: Signal::Medium, frag: Fragment::SquareStartLine((PointBlock { dx: 0, dy: 0, block: Block::M }), (PointBlock { dx: 0, dy: 0, block: Block::K })), frag2: None }) } else if k == 2 { Some(PropertyEntry { block: Block::C, signal: Signal::Medium, frag: Fragment::SquareStartLine((PointBlock { dx: 0, dy: 0, block: Block::M }), (PointBlock { dx: 0, dy: 0, block: Block::C })), frag2: None }) } else if k == 3 { Some(PropertyEntry { block: Block::W, signal: Signal::Medium, frag: Fragment::SquareStartLine((PointBlock { dx: 0, dy: 0, block: Block::M }), (PointBlock { dx: 0, dy: 0, block: Block::W })), frag2: None }) } else { None },
        '\u{2500}' => if k == 0 { Some(PropertyEntry { block: Block::K, signal: Signal::Strong, frag: Fragment::Line((PointBlock { dx: 0, dy: 0, block: Block::K }), (PointBlock { dx: 0, dy: 0, block: Block::O })), frag2: None }) } else if k == 1 { Some(PropertyEntry { block: Block::O, signal: Signal::Strong, frag: Fragment::Line((PointBlock { dx: 0, dy: 0, block: Block::K }), (PointBlock { dx: 0, dy: 0, block: Block::O })), frag2: None }) } else { None },
        '\u{2502}' => if k == 0 { Some(PropertyEntry { block: Block::C, signal: Signal::Strong, frag: Fragment::Line((PointBlock { dx: 0, dy: 0, block: Block::C }), (PointBlock { dx: 0, dy: 0, block: Block::W })), frag2: None }) } else if k == 1 { Some(PropertyEntry { block: Block::W, signal: Signal::Strong, frag: Fragment::Line((PointBlock { dx: 0, dy: 0, block: Block::C }), (PointBlock { dx: 0, dy: 0, block: Block::W })), frag2: None }) } else { None },
        '\u{250c}' => if k == 0 { Some(PropertyEntry { block: Block::O, signal: Signal::Strong, frag: Fragment::Line((PointBlock { dx: 0, dy: 0, block: Block::M }), (PointBlock { dx: 0, dy: 0, block: Block::O })), frag2: None }) } else if k == 1 { Some(PropertyEntry { block: Block::W, signal: Signal::Strong, frag: Fragment::Line((PointBlock { dx: 0, dy: 0, block: Block::M }), (PointBlock { dx: 0, dy: 0, block: Block::W })), frag2: None }) } else { None },
        '\u{2510}' => if k == 0 { Some(PropertyEntry { block: Block::K, signal: Signal::Strong, frag: Fragment::Line((PointBlock { dx: 0, dy: 0, block: Block::M }), (PointBlock { dx: 0, dy: 0, block: Block::K })), frag2: None }) } else if k == 1 { Some(PropertyEntry { block: Block::W, signal: Signal::Strong, frag: Fragment::Line((PointBlock { dx: 0, dy: 0, block: Block::M }), (PointBlock { dx: 0, dy: 0, block: Block::W })), frag2: None }) } else { None },
        '\u{2514}' => if k == 0 { Some(PropertyEntry { block: Block::C, signal: Signal::Strong, frag: Fragment::Line((PointBlock { dx: 0, dy: 0, block: Block::M }), (PointBlock { dx: 0, dy: 0, block: Block::C })), frag2: None }) } else if k == 1 { Some(PropertyEntry { block: Block::O, signal: Signal::Strong, frag: Fragment::Line((PointBlock { dx: 0, dy: 0, block: Block::M }), (PointBlock { dx: 0, dy: 0, block: Block::O })), frag2: None }) } else { None },
        '\u{2518}' => if k == 0 { Some(PropertyEntry { block: Block::C, signal: Signal::Strong, frag: Fragment::Line((PointBlock { dx: 0, dy: 0, block: Block::M }), (PointBlock { dx: 0, dy: 0, block: Block::C })), frag2: None }) } else if k == 1 { Some(PropertyEntry { block: Block::K, signal: Signal::Strong, frag: Fragment::Line((PointBlock { dx: 0, dy: 0, block: Block::M }), (PointBlock { dx: 0, dy: 0, block: Block::K })), frag2: None }) } else { None },
        '\u{251c}' => if k == 0 { Some(PropertyEntry { block: Block::C, signal: Signal::Strong, frag: Fragment::Line((PointBlock { dx: 0, dy: 0, block: Block::M }), (PointBlock { dx: 0, dy: 0, block: Block::C })), frag2: None }) } else if k == 1 { Some(PropertyEntry { block: Block::W, signal: Signal::Strong, frag: Fragment::Line((PointBlock { dx: 0, dy: 0, block: Block::M }), (PointBlock { dx: 0, dy: 0, block: Block::W })), frag2: None }) } else if k == 2 { Some(PropertyEntry { block: Block::O, signal: Signal::Strong, frag: Fragment::Line((PointBlock { dx: 0, dy: 0, block: Block::M }), (PointBlock { dx: 0, dy: 0, block: Block::O })), frag2: None }) } else { None },
        '\u{2524}' => if k == 0 { Some(PropertyEntry { block: Block::C, signal: Signal::Strong, frag: Fragment::Line((PointBlock { dx: 0, dy: 0, block: Block::M }), (PointBlock { dx: 0, dy: 0, block: Block::C })), frag2: None }) } else if k == 1 { Some(PropertyEntry { block: Block::W, signal: Signal::Strong, frag: Fragment::Line((PointBlock { dx: 0, dy: 0, block: Block::M }), (PointBlock { dx: 0, dy: 0, block: Block::W })), frag2: None }) } else if k == 2 { Some(PropertyEntry { block: Block::K, signal: Signal::Strong, frag: Fragment::Line((PointBlock { dx: 0, dy: 0, block: Block::M }), (PointBlock { dx: 0, dy: 0, block: Block::K })), frag2: None }) } else { None },
        '\u{252c}' => if k == 0 { Some(PropertyEntry { block: Block::K, signal: Signal::Strong, frag: Fragment::Line((PointBlock { dx: 0, dy: 0, block: Block::M }), (PointBlock { dx: 0, dy: 0, block: Block::K })), frag2: None }) } else if k == 1 { Some(PropertyEntry { block: Block::O, signal: Signal::Strong, frag: Fragment::Line((PointBlock { dx: 0, dy: 0, block: Block::M }), (PointBlock { dx: 0, dy: 0, block: Block::O })), frag2: None }) } else if k == 2 { Some(PropertyEntry { block: Block::W, signal: Signal::Strong, frag: Fragment::Line((PointBlock { dx: 0, dy: 0, block: Block::M }), (PointBlock { dx: 0, dy: 0, block: Block::W })), frag2: None }) } else { None },
        '\u{2534}' => if k == 0 { Some(PropertyEntry { block: Block::K, signal: Signal::Strong, frag: Fragment::Line((PointBlock { dx: 0, dy: 0, block: Block::M }), (PointBlock { dx: 0, dy: 0, block: Block::K })), frag2: None }) } else if k == 1 { Some(PropertyEntry { block: Block::O, signal: Signal::Strong, frag: Fragment::Line((PointBlock { dx: 0, dy: 0, block: Block::M }), (PointBlock { dx: 0, dy: 0, block: Block::O })), frag2: None }) } else if k == 2 { Some(PropertyEntry { block: Block::C, signal: Signal::Strong, frag: Fragment::Line((PointBlock { dx: 0, dy: 0, block: Block::M }), (PointBlock { dx: 0, dy: 0, block: Block::C })), frag2: None }) } else { None },
        '\u{253c}' => if k == 0 { Some(PropertyEntry { block: Block::C, signal: Signal::Strong, frag: Fragment::Line((PointBlock { dx: 0, dy: 0, block: Block::M }), (PointBlock { dx: 0, dy: 0, block: Block::C })), frag2: None }) } else if k == 1 { Some(PropertyEntry { block: Block::W, signal: Signal::Strong, frag: Fragment::Line((PointBlock { dx: 0, dy: 0, block: Block::M }), (PointBlock { dx: 0, dy: 0, block: Block::W })), frag2: None }) } else if k == 2 { Some(PropertyEntry { block: Block::K, signal: Signal::Strong, frag: Fragment::Line((PointBlock { dx: 0, dy: 0, block: Block::M }), (PointBlock { dx: 0, dy: 0, block: Block::K })), frag2: None }) } else if k == 3 { Some(PropertyEntry { block: Block::O, signal: Signal::Strong, frag: Fragment::Line((PointBlock { dx: 0, dy: 0, block: Block::M }), (PointBlock { dx: 0, dy: 0, block: Block::O })), frag2: None }) } else { None },
        _ => None,
    }
}


} // verus!
