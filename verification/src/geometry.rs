//! Areas of the screen: what lies where, and which entry is meant by a place.
use vstd::prelude::*;

verus! {

/// An area of the screen.
#[derive(Clone, Copy, Debug, PartialEq, Eq, Structural)]
pub struct Rect {
    pub x: u16,
    pub y: u16,
    pub width: u16,
    pub height: u16,
}

/// A sum that stays within the range of coordinates.
pub open spec fn capped(left: int, right: int) -> int {
    if left + right > 65535 {
        65535
    } else {
        left + right
    }
}

/// A difference that is not below zero.
pub open spec fn at_least_zero(value: int) -> int {
    if value < 0 {
        0
    } else {
        value
    }
}

/// Whether a place lies in an area.
pub open spec fn lies_in(area: Rect, x: int, y: int) -> bool {
    area.x <= x < capped(area.x as int, area.width as int) && area.y <= y < capped(
        area.y as int,
        area.height as int,
    )
}

/// Tests whether a place lies in an area.
pub fn contains(area: Rect, x: u16, y: u16) -> (inside: bool)
    ensures
        inside == lies_in(area, x as int, y as int),
{
    x >= area.x && x < area.x.saturating_add(area.width) && y >= area.y && y
        < area.y.saturating_add(area.height)
}

/// The entry of a list with a border that is shown in a line.
pub open spec fn entry_at(y: int, area: Rect) -> Option<int> {
    let top = capped(area.y as int, 1);
    let bottom = at_least_zero(capped(area.y as int, area.height as int) - 1);
    if top <= y < bottom {
        Some(y - top)
    } else {
        None
    }
}

/// Finds the entry of a list with a border that is shown in a line.
pub fn list_index_at(y: u16, area: Rect) -> (index: Option<usize>)
    ensures
        match index {
            Some(index) => entry_at(y as int, area) == Some(index as int),
            None => entry_at(y as int, area) is None,
        },
{
    let inner_top: u16 = area.y.saturating_add(1);
    let inner_bottom: u16 = area.y.saturating_add(area.height).saturating_sub(1);
    if y >= inner_top && y < inner_bottom {
        Some((y - inner_top) as usize)
    } else {
        None
    }
}

/// An area of a size in the middle of another, not larger than it.
pub open spec fn middle_of(area: Rect, width: int, height: int) -> Rect {
    Rect {
        x: (area.x + at_least_zero(area.width - width) / 2) as u16,
        y: (area.y + at_least_zero(area.height - height) / 2) as u16,
        width: (if width < area.width {
            width
        } else {
            area.width as int
        }) as u16,
        height: (if height < area.height {
            height
        } else {
            area.height as int
        }) as u16,
    }
}

/// Finds an area of a size in the middle of another, not larger than it.
pub fn centered(area: Rect, width: u16, height: u16) -> (result: Rect)
    requires
        area.x + at_least_zero(area.width - width) / 2 <= u16::MAX,
        area.y + at_least_zero(area.height - height) / 2 <= u16::MAX,
    ensures
        result == middle_of(area, width as int, height as int),
{
    Rect {
        x: area.x + area.width.saturating_sub(width) / 2,
        y: area.y + area.height.saturating_sub(height) / 2,
        width: if width < area.width {
            width
        } else {
            area.width
        },
        height: if height < area.height {
            height
        } else {
            area.height
        },
    }
}

/// The screen as an area.
pub open spec fn screen(width: u16, height: u16) -> Rect {
    Rect { x: 0, y: 0, width, height }
}

/// What is left of an area within margins, or nothing where they leave nothing.
pub open spec fn within_margins(area: Rect, horizontal: int, vertical: int) -> Rect {
    if area.width < 2 * horizontal || area.height < 2 * vertical {
        Rect { x: 0, y: 0, width: 0, height: 0 }
    } else {
        Rect {
            x: capped(area.x as int, horizontal) as u16,
            y: capped(area.y as int, vertical) as u16,
            width: (area.width - 2 * horizontal) as u16,
            height: (area.height - 2 * vertical) as u16,
        }
    }
}

/// An index that is moved along a list whose ends meet.
pub open spec fn moved(current: int, len: int, delta: int) -> int {
    if len == 0 {
        0
    } else {
        (current + delta) % len
    }
}

/// Moves an index along a list whose ends meet.
pub fn move_index(current: usize, len: usize, delta: isize) -> (index: usize)
    ensures
        index == moved(current as int, len as int, delta as int),
{
    if len == 0 {
        return 0;
    }
    let start: u128 = current as u128;
    let size: u128 = len as u128;
    if delta >= 0 {
        let sum: u128 = start + delta as u128;
        (sum % size) as usize
    } else {
        let back: u128 = (-(delta as i128)) as u128;
        let steps: u128 = back % size;
        let place: u128 = start % size;
        proof {
            let total = (current + delta) as int;
            let n = len as int;
            vstd::arithmetic::div_mod::lemma_fundamental_div_mod(back as int, n);
            vstd::arithmetic::div_mod::lemma_fundamental_div_mod(start as int, n);
            let q = start as int / n - back as int / n;
            assert(total == n * q + (place - steps)) by (nonlinear_arith)
                requires
                    total == start as int - back as int,
                    back as int == n * (back as int / n) + steps as int,
                    start as int == n * (start as int / n) + place as int,
                    q == start as int / n - back as int / n,
            ;
            if place >= steps {
                vstd::arithmetic::div_mod::lemma_fundamental_div_mod_converse(
                    total,
                    n,
                    q,
                    place - steps,
                );
            } else {
                assert(total == n * (q - 1) + (place - steps + n)) by (nonlinear_arith)
                    requires
                        total == n * q + (place - steps),
                ;
                vstd::arithmetic::div_mod::lemma_fundamental_div_mod_converse(
                    total,
                    n,
                    q - 1,
                    place - steps + n,
                );
            }
        }
        if place >= steps {
            (place - steps) as usize
        } else {
            (place + size - steps) as usize
        }
    }
}

/// A moved index stays in the list, and moving it back the same way leads back to where it was.
pub proof fn law_moves_can_be_undone(current: int, len: int, delta: int)
    requires
        0 <= current < len,
    ensures
        0 <= moved(current, len, delta) < len,
        moved(moved(current, len, delta), len, -delta) == current,
        moved(current, len, 0) == current,
{
    let there = (current + delta) % len;
    vstd::arithmetic::div_mod::lemma_fundamental_div_mod(current + delta, len);
    let q = (current + delta) / len;
    assert(there - delta == len * (-q) + current) by (nonlinear_arith)
        requires
            current + delta == len * q + there,
    ;
    vstd::arithmetic::div_mod::lemma_fundamental_div_mod_converse(there - delta, len, -q, current);
    vstd::arithmetic::div_mod::lemma_small_mod(current as nat, len as nat);
}

} // verus!
