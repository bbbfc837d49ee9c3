use vstd::prelude::*;

verus! {

use crate::error::GameError;
use vstd::string::StringExecFns;

/// One of the four binary traits a piece carries.
#[derive(Debug, Copy, Clone, PartialEq, Eq, Structural)]
pub enum Property {
    Tall,
    Round,
    Full,
    Light,
}

/// The "is true" mask bit for the property with bit index `i`
/// (zero for an index outside the four defined properties).
pub open spec fn mask_of(i: u8) -> u8 {
    if i == 0 {
        1
    } else if i == 1 {
        2
    } else if i == 2 {
        4
    } else if i == 3 {
        8
    } else {
        0
    }
}

impl Property {
    /// Bit index of this property in the low nibble of a piece encoding.
    pub open spec fn idx(self) -> u8 {
        match self {
            Property::Tall => 0,
            Property::Round => 1,
            Property::Full => 2,
            Property::Light => 3,
        }
    }

    /// The single "is true" bit of this property.
    pub fn mask(self) -> (r: u8)
        ensures
            r == mask_of(self.idx()),
    {
        match self {
            Property::Tall => 1,
            Property::Round => 2,
            Property::Full => 4,
            Property::Light => 8,
        }
    }
}

/// A piece, encoded as one byte: bit `i` of the low nibble asserts
/// "property `i` is true", bit `i + 4` asserts "property `i` is false".
/// For every property exactly one of its two bits is on, so the bitwise
/// AND of several encodings is nonzero exactly when some property holds
/// the same truth value in all of them.
#[derive(Debug, Copy, Clone, PartialEq, Eq)]
pub struct Piece {
    properties: u8,
}

impl Piece {
    /// The complement encoding: the high nibble mirrors the negated low nibble.
    #[verifier::type_invariant]
    spec fn wf(self) -> bool {
        self.properties >> 4 == !self.properties & 0xF
    }

    /// Every piece the library hands out satisfies this; it is restated
    /// here so that lemmas can name it for arbitrary ghost pieces.
    pub closed spec fn well_formed(self) -> bool {
        self.wf()
    }

    /// The raw complement-encoded byte.
    pub closed spec fn encoding(self) -> u8 {
        self.properties
    }

    /// Truth value of the property with bit index `i`.
    pub closed spec fn has(self, i: u8) -> bool {
        self.properties & mask_of(i) != 0
    }

    /// A piece with every property set to false.
    pub fn new() -> (r: Piece)
        ensures
            forall|i: u8| i < 4 ==> !r.has(i),
    {
        proof {
            assert(0xF0u8 >> 4 == !0xF0u8 & 0xF) by (bit_vector);
            assert(0xF0u8 & 1 == 0 && 0xF0u8 & 2 == 0 && 0xF0u8 & 4 == 0 && 0xF0u8 & 8 == 0)
                by (bit_vector);
        }
        Piece { properties: 0xF0 }
    }

    /// Builds a piece from a raw truth assignment in the low four bits:
    /// bit `i` gives the value of property `i`. An assignment with any
    /// higher bit set is rejected rather than silently masked.
    pub fn new_with_props(props: u8) -> (r: Result<Piece, GameError>)
        ensures
            props < 16 ==> (r matches Ok(p) && forall|i: u8|
                i < 4 ==> p.has(i) == (props & mask_of(i) != 0)),
            props >= 16 ==> r == Err::<Piece, GameError>(GameError::InvalidPropertyEncoding),
    {
        if props >> 4 != 0 {
            proof {
                assert(props >> 4 != 0 ==> props >= 16) by (bit_vector);
            }
            return Err(GameError::InvalidPropertyEncoding);
        }
        let encoded: u8 = props | ((props ^ 0xF) << 4);
        proof {
            assert(props >> 4 == 0 ==> props < 16) by (bit_vector);
            assert(encoded >> 4 == !encoded & 0xF && (encoded & 1 != 0) == (props & 1 != 0) && (
            encoded & 2 != 0) == (props & 2 != 0) && (encoded & 4 != 0) == (props & 4 != 0) && (
            encoded & 8 != 0) == (props & 8 != 0)) by (bit_vector)
                requires
                    props >> 4 == 0,
                    encoded == props | ((props ^ 0xF) << 4),
            ;
        }
        Ok(Piece { properties: encoded })
    }

    /// Assigns `val` to `prop`, leaving every other property unchanged.
    pub fn set(&mut self, prop: Property, val: bool)
        ensures
            final(self).has(prop.idx()) == val,
            forall|j: u8| j < 4 && j != prop.idx() ==> final(self).has(j) == old(self).has(j),
    {
        proof {
            use_type_invariant(&*self);
        }
        let m = prop.mask();
        let p = self.properties;
        if val {
            let np: u8 = (p | m) & !(m << 4);
            proof {
                assert(np >> 4 == !np & 0xF && np & m != 0 && (m != 1 ==> (np & 1 != 0) == (p & 1
                    != 0)) && (m != 2 ==> (np & 2 != 0) == (p & 2 != 0)) && (m != 4 ==> (np & 4
                    != 0) == (p & 4 != 0)) && (m != 8 ==> (np & 8 != 0) == (p & 8 != 0)))
                    by (bit_vector)
                    requires
                        p >> 4 == !p & 0xF,
                        m == 1 || m == 2 || m == 4 || m == 8,
                        np == (p | m) & !(m << 4),
                ;
            }
            self.properties = np;
        } else {
            let np: u8 = (p & !m) | (m << 4);
            proof {
                assert(np >> 4 == !np & 0xF && np & m == 0 && (m != 1 ==> (np & 1 != 0) == (p & 1
                    != 0)) && (m != 2 ==> (np & 2 != 0) == (p & 2 != 0)) && (m != 4 ==> (np & 4
                    != 0) == (p & 4 != 0)) && (m != 8 ==> (np & 8 != 0) == (p & 8 != 0)))
                    by (bit_vector)
                    requires
                        p >> 4 == !p & 0xF,
                        m == 1 || m == 2 || m == 4 || m == 8,
                        np == (p & !m) | (m << 4),
                ;
            }
            self.properties = np;
        }
    }

    /// Current truth value of `prop`.
    pub fn get(self, prop: Property) -> (r: bool)
        ensures
            r == self.has(prop.idx()),
    {
        (self.properties & prop.mask()) != 0
    }

    /// The bracketed four-symbol rendering of a piece, one symbol per
    /// property, picked by that property's truth value.
    pub open spec fn pp_chars(self) -> Seq<char> {
        "["@ + (if self.has(0) {
            "\u{270b}"@
        } else {
            "\u{1f90f}"@
        }) + (if self.has(1) {
            "\u{1f7e0}"@
        } else {
            "\u{1f536}"@
        }) + (if self.has(2) {
            "\u{1f534}"@
        } else {
            "\u{2b55}"@
        }) + (if self.has(3) {
            "\u{2b1c}"@
        } else {
            "\u{1f3f4}"@
        }) + "]"@
    }

    /// Renders the piece as its bracketed four-symbol string.
    pub fn pp_write(self) -> (r: String)
        ensures
            r@ == self.pp_chars(),
    {
        let mut s = "[".to_owned();
        if self.get(Property::Tall) {
            s.append("\u{270b}");
        } else {
            s.append("\u{1f90f}");
        }
        if self.get(Property::Round) {
            s.append("\u{1f7e0}");
        } else {
            s.append("\u{1f536}");
        }
        if self.get(Property::Full) {
            s.append("\u{1f534}");
        } else {
            s.append("\u{2b55}");
        }
        if self.get(Property::Light) {
            s.append("\u{2b1c}");
        } else {
            s.append("\u{1f3f4}");
        }
        s.append("]");
        s
    }

    /// The raw complement-encoded byte, together with the encoding invariant.
    pub fn props(&self) -> (r: u8)
        ensures
            r == self.encoding(),
            self.well_formed(),
    {
        proof {
            use_type_invariant(self);
        }
        self.properties
    }
}

/// All four pieces hold the same truth value for the property with index `i`.
pub open spec fn pieces_agree(a: Piece, b: Piece, c: Piece, d: Piece, i: u8) -> bool {
    a.has(i) == b.has(i) && b.has(i) == c.has(i) && c.has(i) == d.has(i)
}

/// Four pieces form a winning line: at least one property is unanimous.
pub open spec fn line_wins(a: Piece, b: Piece, c: Piece, d: Piece) -> bool {
    exists|i: u8| i < 4 && pieces_agree(a, b, c, d, i)
}

/// The bitwise AND of four well-formed encodings is nonzero exactly when
/// the pieces share some property's truth value: a unanimous "true" keeps
/// the property's low bit alive, a unanimous "false" its high bit.
pub proof fn lemma_shared_property_and(a: Piece, b: Piece, c: Piece, d: Piece)
    requires
        a.well_formed(),
        b.well_formed(),
        c.well_formed(),
        d.well_formed(),
    ensures
        (255u8 & a.encoding() & b.encoding() & c.encoding() & d.encoding() != 0) == line_wins(
            a,
            b,
            c,
            d,
        ),
{
    let x = a.encoding();
    let y = b.encoding();
    let z = c.encoding();
    let w = d.encoding();
    let shared0 = (x & 1 != 0) == (y & 1 != 0) && (y & 1 != 0) == (z & 1 != 0) && (z & 1 != 0) == (
    w & 1 != 0);
    let shared1 = (x & 2 != 0) == (y & 2 != 0) && (y & 2 != 0) == (z & 2 != 0) && (z & 2 != 0) == (
    w & 2 != 0);
    let shared2 = (x & 4 != 0) == (y & 4 != 0) && (y & 4 != 0) == (z & 4 != 0) && (z & 4 != 0) == (
    w & 4 != 0);
    let shared3 = (x & 8 != 0) == (y & 8 != 0) && (y & 8 != 0) == (z & 8 != 0) && (z & 8 != 0) == (
    w & 8 != 0);
    assert((255u8 & x & y & z & w != 0) == (((x & 1 != 0) == (y & 1 != 0) && (y & 1 != 0) == (z & 1
        != 0) && (z & 1 != 0) == (w & 1 != 0)) || ((x & 2 != 0) == (y & 2 != 0) && (y & 2 != 0) == (
    z & 2 != 0) && (z & 2 != 0) == (w & 2 != 0)) || ((x & 4 != 0) == (y & 4 != 0) && (y & 4 != 0)
        == (z & 4 != 0) && (z & 4 != 0) == (w & 4 != 0)) || ((x & 8 != 0) == (y & 8 != 0) && (y & 8
        != 0) == (z & 8 != 0) && (z & 8 != 0) == (w & 8 != 0)))) by (bit_vector)
        requires
            x >> 4 == !x & 0xF,
            y >> 4 == !y & 0xF,
            z >> 4 == !z & 0xF,
            w >> 4 == !w & 0xF,
    ;
    if shared0 {
        assert(pieces_agree(a, b, c, d, 0));
    } else if shared1 {
        assert(pieces_agree(a, b, c, d, 1));
    } else if shared2 {
        assert(pieces_agree(a, b, c, d, 2));
    } else if shared3 {
        assert(pieces_agree(a, b, c, d, 3));
    }
    if line_wins(a, b, c, d) {
        let i = choose|i: u8| i < 4 && pieces_agree(a, b, c, d, i);
        assert(i == 0 || i == 1 || i == 2 || i == 3);
        assert(shared0 || shared1 || shared2 || shared3);
    }
}

impl Default for Piece {
    /// Same as `Piece::new`: every property false.
    fn default() -> (r: Piece)
        ensures
            forall|i: u8| i < 4 ==> !r.has(i),
    {
        Piece::new()
    }
}

} // verus!
