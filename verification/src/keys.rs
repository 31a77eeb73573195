//! The physical keys the editor reacts to, the shared unshifted/shifted
//! character table, and the insert-mode key handler over the text buffer.
use crate::buffer::Buffer;
use crate::buffer::Cursor;
use crate::buffer::Direction;
use crate::buffer::inserted_char_effect;
use crate::buffer::split_line_effect;
use vstd::prelude::*;

verus! {

/// A physical key, as the windowing layer reports it.
#[derive(Clone, Copy, PartialEq, Eq, Structural, Debug)]
pub enum Key {
    Num1,
    Num2,
    Num3,
    Num4,
    Num5,
    Num6,
    Num7,
    Num8,
    Num9,
    Num0,
    Minus,
    Equals,
    Q,
    W,
    E,
    R,
    T,
    Y,
    U,
    I,
    O,
    P,
    LeftBracket,
    RightBracket,
    Backslash,
    A,
    S,
    D,
    F,
    G,
    H,
    J,
    K,
    L,
    Semicolon,
    Quote,
    Z,
    X,
    C,
    V,
    B,
    N,
    M,
    Comma,
    Period,
    Slash,
    Space,
    Return,
    Backspace,
    Up,
    Down,
    Escape,
    Other,
}

/// Picks the shifted or the unshifted character of a key pair.
pub fn shft(no_shift: char, shift: char, is_shift: bool) -> (c: char)
    ensures
        c == if is_shift {
            shift
        } else {
            no_shift
        },
{
    if is_shift {
        shift
    } else {
        no_shift
    }
}

/// The character a key produces, if it produces one: the US-layout pair of
/// each printable key, picked by the shift state.
pub open spec fn key_char(k: Key, shift: bool) -> Option<char> {
    let pair: Option<(char, char)> = match k {
        Key::Num1 => Some(('1', '!')),
        Key::Num2 => Some(('2', '@')),
        Key::Num3 => Some(('3', '#')),
        Key::Num4 => Some(('4', '$')),
        Key::Num5 => Some(('5', '%')),
        Key::Num6 => Some(('6', '^')),
        Key::Num7 => Some(('7', '&')),
        Key::Num8 => Some(('8', '*')),
        Key::Num9 => Some(('9', '(')),
        Key::Num0 => Some(('0', ')')),
        Key::Minus => Some(('-', '_')),
        Key::Equals => Some(('=', '+')),
        Key::Q => Some(('q', 'Q')),
        Key::W => Some(('w', 'W')),
        Key::E => Some(('e', 'E')),
        Key::R => Some(('r', 'R')),
        Key::T => Some(('t', 'T')),
        Key::Y => Some(('y', 'Y')),
        Key::U => Some(('u', 'U')),
        Key::I => Some(('i', 'I')),
        Key::O => Some(('o', 'O')),
        Key::P => Some(('p', 'P')),
        Key::LeftBracket => Some(('[', '{')),
        Key::RightBracket => Some((']', '}')),
        Key::Backslash => Some(('\\', '|')),
        Key::A => Some(('a', 'A')),
        Key::S => Some(('s', 'S')),
        Key::D => Some(('d', 'D')),
        Key::F => Some(('f', 'F')),
        Key::G => Some(('g', 'G')),
        Key::H => Some(('h', 'H')),
        Key::J => Some(('j', 'J')),
        Key::K => Some(('k', 'K')),
        Key::L => Some(('l', 'L')),
        Key::Semicolon => Some((';', ':')),
        Key::Quote => Some(('\'', '"')),
        Key::Z => Some(('z', 'Z')),
        Key::X => Some(('x', 'X')),
        Key::C => Some(('c', 'C')),
        Key::V => Some(('v', 'V')),
        Key::B => Some(('b', 'B')),
        Key::N => Some(('n', 'N')),
        Key::M => Some(('m', 'M')),
        Key::Comma => Some((',', '<')),
        Key::Period => Some(('.', '>')),
        Key::Slash => Some(('/', '?')),
        Key::Space => Some((' ', ' ')),
        _ => None,
    };
    match pair {
        Some(p) => Some(
            if shift {
                p.1
            } else {
                p.0
            },
        ),
        None => None,
    }
}

/// How a backspace in insert mode changes a buffer: at column 0 nothing
/// happens; otherwise the character left of the cursor is removed and the
/// cursor moves one step left.
pub open spec fn backspace_effect(pre: Buffer, post: Buffer) -> bool {
    if pre.cursor.col == 0 {
        post == pre
    } else {
        let row = pre.cursor.row as int;
        let col = pre.cursor.col as int;
        let line = pre.line_at(row);
        &&& post.lines@.len() == pre.lines@.len()
        &&& forall|i: int| 0 <= i < pre.lines@.len() && i != row ==> post.lines@[i] == pre.lines@[i]
        &&& post.line_at(row) == line.subrange(0, col - 1) + line.subrange(col, line.len() as int)
        &&& post.cursor == (Cursor { row: pre.cursor.row, col: (pre.cursor.col - 1) as usize })
        &&& post.file_name == pre.file_name
        &&& post.modified == true
    }
}

/// Applies one insert-mode key press to the buffer: printable keys insert
/// their character, `Return` splits the line at the cursor, `Backspace`
/// removes the character left of the cursor, and every other key does
/// nothing.
pub fn handle_key_ins_mode(keycode: Key, shift: bool, buffer: &mut Buffer)
    requires
        old(buffer).wf(),
        old(buffer).line_at(old(buffer).cursor.row as int).len() < usize::MAX,
        old(buffer).lines@.len() < usize::MAX,
    ensures
        final(buffer).wf(),
        match key_char(keycode, shift) {
            Some(c) => inserted_char_effect(*old(buffer), *final(buffer), c),
            None => match keycode {
                Key::Return => split_line_effect(*old(buffer), *final(buffer)),
                Key::Backspace => backspace_effect(*old(buffer), *final(buffer)),
                _ => *final(buffer) == *old(buffer),
            },
        },
{
    match keycode {
        Key::Num1 => buffer.insert_character(shft('1', '!', shift)),
        Key::Num2 => buffer.insert_character(shft('2', '@', shift)),
        Key::Num3 => buffer.insert_character(shft('3', '#', shift)),
        Key::Num4 => buffer.insert_character(shft('4', '$', shift)),
        Key::Num5 => buffer.insert_character(shft('5', '%', shift)),
        Key::Num6 => buffer.insert_character(shft('6', '^', shift)),
        Key::Num7 => buffer.insert_character(shft('7', '&', shift)),
        Key::Num8 => buffer.insert_character(shft('8', '*', shift)),
        Key::Num9 => buffer.insert_character(shft('9', '(', shift)),
        Key::Num0 => buffer.insert_character(shft('0', ')', shift)),
        Key::Minus => buffer.insert_character(shft('-', '_', shift)),
        Key::Equals => buffer.insert_character(shft('=', '+', shift)),
        Key::Q => buffer.insert_character(shft('q', 'Q', shift)),
        Key::W => buffer.insert_character(shft('w', 'W', shift)),
        Key::E => buffer.insert_character(shft('e', 'E', shift)),
        Key::R => buffer.insert_character(shft('r', 'R', shift)),
        Key::T => buffer.insert_character(shft('t', 'T', shift)),
        Key::Y => buffer.insert_character(shft('y', 'Y', shift)),
        Key::U => buffer.insert_character(shft('u', 'U', shift)),
        Key::I => buffer.insert_character(shft('i', 'I', shift)),
        Key::O => buffer.insert_character(shft('o', 'O', shift)),
        Key::P => buffer.insert_character(shft('p', 'P', shift)),
        Key::LeftBracket => buffer.insert_character(shft('[', '{', shift)),
        Key::RightBracket => buffer.insert_character(shft(']', '}', shift)),
        Key::Backslash => buffer.insert_character(shft('\\', '|', shift)),
        Key::A => buffer.insert_character(shft('a', 'A', shift)),
        Key::S => buffer.insert_character(shft('s', 'S', shift)),
        Key::D => buffer.insert_character(shft('d', 'D', shift)),
        Key::F => buffer.insert_character(shft('f', 'F', shift)),
        Key::G => buffer.insert_character(shft('g', 'G', shift)),
        Key::H => buffer.insert_character(shft('h', 'H', shift)),
        Key::J => buffer.insert_character(shft('j', 'J', shift)),
        Key::K => buffer.insert_character(shft('k', 'K', shift)),
        Key::L => buffer.insert_character(shft('l', 'L', shift)),
        Key::Semicolon => buffer.insert_character(shft(';', ':', shift)),
        Key::Quote => buffer.insert_character(shft('\'', '"', shift)),
        Key::Z => buffer.insert_character(shft('z', 'Z', shift)),
        Key::X => buffer.insert_character(shft('x', 'X', shift)),
        Key::C => buffer.insert_character(shft('c', 'C', shift)),
        Key::V => buffer.insert_character(shft('v', 'V', shift)),
        Key::B => buffer.insert_character(shft('b', 'B', shift)),
        Key::N => buffer.insert_character(shft('n', 'N', shift)),
        Key::M => buffer.insert_character(shft('m', 'M', shift)),
        Key::Comma => buffer.insert_character(shft(',', '<', shift)),
        Key::Period => buffer.insert_character(shft('.', '>', shift)),
        Key::Slash => buffer.insert_character(shft('/', '?', shift)),
        Key::Space => buffer.insert_character(' '),
        Key::Return => buffer.split_line_at_cursor(),
        Key::Backspace => {
            if buffer.cursor.col > 0 {
                buffer.move_cursor(Direction::Left);
                buffer.delete_current_character();
            }
        },
        _ => (),
    }
}

} // verus!
