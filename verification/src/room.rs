//! Room names.

use vstd::prelude::*;

verus! {

/// A room of the game world, by its coordinates.
///
/// East and north coordinates count up from zero, west and south coordinates count down from
/// minus one.
#[derive(Clone, Copy, Debug, Hash, PartialEq, Eq, Structural)]
pub struct RoomName {
    /// `0` is `E0`, `-1` is `W0`.
    pub x_coord: i32,
    /// `0` is `N0`, `-1` is `S0`.
    pub y_coord: i32,
}

/// The character of a decimal digit.
pub open spec fn digit(d: nat) -> char {
    (48 + d) as char
}

/// A number in decimal notation, without leading zeros.
pub open spec fn decimal(n: nat) -> Seq<char>
    decreases n,
{
    if n < 10 {
        seq![digit(n)]
    } else {
        decimal(n / 10).push(digit(n % 10))
    }
}

/// One coordinate: a letter for the direction, then the distance.
pub open spec fn coord_text(coord: int, positive: char, negative: char) -> Seq<char> {
    if coord >= 0 {
        seq![positive] + decimal(coord as nat)
    } else {
        seq![negative] + decimal((-coord - 1) as nat)
    }
}

impl RoomName {
    /// Both coordinates have a distance that can be written down.
    pub open spec fn displayable(self) -> bool {
        self.x_coord > i32::MIN && self.y_coord > i32::MIN
    }

    /// The name the game uses, such as `E4S61`.
    pub open spec fn text(self) -> Seq<char> {
        coord_text(self.x_coord as int, 'E', 'W') + coord_text(self.y_coord as int, 'N', 'S')
    }

    /// Writes the room name as the game expects it.
    ///
    /// Calls the `Display` implementation of `screeps_api::RoomName`, which writes `E` or `W` with
    /// the first distance and then `N` or `S` with the second, both in decimal. It negates
    /// negative coordinates, so the smallest one is left out.
    #[verifier::external_body]
    pub(crate) fn name(self) -> (res: String)
        requires
            self.displayable(),
        ensures
            res@ == self.text(),
    {
        let room = screeps_api::RoomName { x_coord: self.x_coord, y_coord: self.y_coord };
        room.to_string()
    }
}

/// A number in decimal notation consists of digits.
pub proof fn lemma_decimal_digits(n: nat)
    ensures
        decimal(n).len() > 0,
        n >= 10 ==> decimal(n).len() > 1,
        forall|i: int| 0 <= i < decimal(n).len() ==> '0' <= #[trigger] decimal(n)[i] <= '9',
    decreases n,
{
    if n >= 10 {
        lemma_decimal_digits(n / 10);
    }
}

proof fn lemma_decimal_injective(m: nat, n: nat)
    requires
        decimal(m) == decimal(n),
    ensures
        m == n,
    decreases m,
{
    lemma_decimal_digits(m);
    lemma_decimal_digits(n);
    assert(digit(m % 10) as int == 48 + m % 10);
    assert(digit(n % 10) as int == 48 + n % 10);
    assert(decimal(m).last() == digit(m % 10));
    assert(decimal(n).last() == digit(n % 10));
    if m >= 10 {
        assert(decimal(m / 10) =~= decimal(m).drop_last());
        assert(decimal(n / 10) =~= decimal(n).drop_last());
        lemma_decimal_injective(m / 10, n / 10);
    }
}

/// The distance that one coordinate is written with.
spec fn distance(coord: int) -> nat {
    if coord >= 0 {
        coord as nat
    } else {
        (-coord - 1) as nat
    }
}

/// Rooms have names of their own: two rooms with the same name are the same room.
pub proof fn law_names_tell_rooms(a: RoomName, b: RoomName)
    requires
        a.text() == b.text(),
    ensures
        a == b,
{
    let x = decimal(distance(a.x_coord as int));
    let y = decimal(distance(a.y_coord as int));
    let z = decimal(distance(b.x_coord as int));
    let w = decimal(distance(b.y_coord as int));
    lemma_decimal_digits(distance(a.x_coord as int));
    lemma_decimal_digits(distance(a.y_coord as int));
    lemma_decimal_digits(distance(b.x_coord as int));
    lemma_decimal_digits(distance(b.y_coord as int));
    let name = a.text();
    assert(name[0] == coord_text(a.x_coord as int, 'E', 'W')[0]);
    assert(name[0] == coord_text(b.x_coord as int, 'E', 'W')[0]);
    // The letter of the second coordinate is the first character after the first that is no digit.
    let m = 1 + x.len() as int;
    let n = 1 + z.len() as int;
    assert(name[m] == 'N' || name[m] == 'S');
    assert(name[n] == 'N' || name[n] == 'S');
    assert(forall|i: int| 0 <= i < x.len() ==> name[1 + i] == #[trigger] x[i]);
    assert(forall|i: int| 0 <= i < z.len() ==> name[1 + i] == #[trigger] z[i]);
    if m < n {
        assert(name[m] == z[m - 1]);
    }
    if n < m {
        assert(name[n] == x[n - 1]);
    }
    assert(x =~= z);
    lemma_decimal_injective(distance(a.x_coord as int), distance(b.x_coord as int));
    assert(y =~= name.skip(m + 1));
    assert(w =~= name.skip(m + 1));
    lemma_decimal_injective(distance(a.y_coord as int), distance(b.y_coord as int));
}

} // verus!
