//! The piece taxonomy: nine piece kinds partitioned into raw materials,
//! intermediate pieces and final (orderable) pieces.

use vstd::prelude::*;

verus! {

/// The nine piece kinds handled by the factory.
#[derive(Clone, Copy, Debug, PartialEq, Eq, Structural)]
pub enum PieceKind {
    P1,
    P2,
    P3,
    P4,
    P5,
    P6,
    P7,
    P8,
    P9,
}

/// Piece kinds bought from suppliers.
#[derive(Clone, Copy, Debug, PartialEq, Eq, Structural)]
pub enum RawMaterial {
    P1,
    P2,
}

/// Piece kinds produced by intermediate transformations.
#[derive(Clone, Copy, Debug, PartialEq, Eq, Structural)]
pub enum InterPiece {
    P3,
    P4,
    P8,
}

/// Piece kinds that clients may order.
#[derive(Clone, Copy, Debug, PartialEq, Eq, Structural)]
pub enum FinalPiece {
    P5,
    P6,
    P7,
    P9,
}

impl PieceKind {
    /// True of the kinds that procurement buys.
    pub open spec fn is_raw_material(self) -> bool {
        self == PieceKind::P1 || self == PieceKind::P2
    }

    /// True of the kinds built in intermediate steps.
    pub open spec fn is_intermediate(self) -> bool {
        self == PieceKind::P3 || self == PieceKind::P4 || self == PieceKind::P8
    }

    /// True of the kinds that clients order.
    pub open spec fn is_final(self) -> bool {
        self == PieceKind::P5 || self == PieceKind::P6 || self == PieceKind::P7
            || self == PieceKind::P9
    }

    /// The raw-material view of this kind, when it has one.
    pub fn as_raw_material(self) -> (r: Option<RawMaterial>)
        ensures
            self == PieceKind::P1 ==> r == Some(RawMaterial::P1),
            self == PieceKind::P2 ==> r == Some(RawMaterial::P2),
            !self.is_raw_material() ==> r is None,
    {
        match self {
            PieceKind::P1 => Some(RawMaterial::P1),
            PieceKind::P2 => Some(RawMaterial::P2),
            _ => None,
        }
    }
}

impl RawMaterial {
    /// The corresponding piece kind.
    pub open spec fn spec_as_piece_kind(self) -> PieceKind {
        match self {
            RawMaterial::P1 => PieceKind::P1,
            RawMaterial::P2 => PieceKind::P2,
        }
    }

    /// The corresponding piece kind.
    pub fn as_piece_kind(self) -> (r: PieceKind)
        ensures
            r == self.spec_as_piece_kind(),
    {
        match self {
            RawMaterial::P1 => PieceKind::P1,
            RawMaterial::P2 => PieceKind::P2,
        }
    }

    /// Every raw-material variant, in declaration order.
    pub fn all() -> (r: Vec<RawMaterial>)
        ensures
            r@ == seq![RawMaterial::P1, RawMaterial::P2],
    {
        let result: Vec<RawMaterial> = vec![RawMaterial::P1, RawMaterial::P2];
        proof {
            assert(result@ =~= seq![RawMaterial::P1, RawMaterial::P2]);
        }
        result
    }
}

impl FinalPiece {
    /// The corresponding piece kind.
    pub open spec fn spec_as_piece_kind(self) -> PieceKind {
        match self {
            FinalPiece::P5 => PieceKind::P5,
            FinalPiece::P6 => PieceKind::P6,
            FinalPiece::P7 => PieceKind::P7,
            FinalPiece::P9 => PieceKind::P9,
        }
    }

    /// The corresponding piece kind.
    pub fn as_piece_kind(self) -> (r: PieceKind)
        ensures
            r == self.spec_as_piece_kind(),
    {
        match self {
            FinalPiece::P5 => PieceKind::P5,
            FinalPiece::P6 => PieceKind::P6,
            FinalPiece::P7 => PieceKind::P7,
            FinalPiece::P9 => PieceKind::P9,
        }
    }

    /// The two-character code naming this piece.
    pub open spec fn spec_code(self) -> Seq<char> {
        match self {
            FinalPiece::P5 => seq!['P', '5'],
            FinalPiece::P6 => seq!['P', '6'],
            FinalPiece::P7 => seq!['P', '7'],
            FinalPiece::P9 => seq!['P', '9'],
        }
    }

    /// The two-character code naming this piece.
    pub fn code(self) -> (r: &'static str)
        ensures
            r@ == self.spec_code(),
    {
        proof {
            reveal_strlit("P5");
            reveal_strlit("P6");
            reveal_strlit("P7");
            reveal_strlit("P9");
        }
        let r = match self {
            FinalPiece::P5 => "P5",
            FinalPiece::P6 => "P6",
            FinalPiece::P7 => "P7",
            FinalPiece::P9 => "P9",
        };
        proof {
            assert(r@ =~= self.spec_code());
        }
        r
    }

    /// The final piece named by a code, if any.
    pub open spec fn spec_from_code(s: Seq<char>) -> Option<FinalPiece> {
        if s == seq!['P', '5'] {
            Some(FinalPiece::P5)
        } else if s == seq!['P', '6'] {
            Some(FinalPiece::P6)
        } else if s == seq!['P', '7'] {
            Some(FinalPiece::P7)
        } else if s == seq!['P', '9'] {
            Some(FinalPiece::P9)
        } else {
            None
        }
    }

    /// Reads a final piece from its two-character code; any other string
    /// is rejected.
    pub fn from_code(s: &str) -> (r: Option<FinalPiece>)
        ensures
            r == Self::spec_from_code(s@),
    {
        if s.unicode_len() != 2 {
            return None;
        }
        let c0 = s.get_char(0);
        let c1 = s.get_char(1);
        let r = if c0 != 'P' {
            None
        } else if c1 == '5' {
            Some(FinalPiece::P5)
        } else if c1 == '6' {
            Some(FinalPiece::P6)
        } else if c1 == '7' {
            Some(FinalPiece::P7)
        } else if c1 == '9' {
            Some(FinalPiece::P9)
        } else {
            None
        };
        proof {
            assert(s@.len() == 2);
            if c0 == 'P' {
                if c1 == '5' {
                    assert(s@ =~= seq!['P', '5']);
                } else if c1 == '6' {
                    assert(s@ =~= seq!['P', '6']);
                } else if c1 == '7' {
                    assert(s@ =~= seq!['P', '7']);
                } else if c1 == '9' {
                    assert(s@ =~= seq!['P', '9']);
                } else {
                    assert(s@ != seq!['P', '5'] && s@ != seq!['P', '6'] && s@ != seq!['P', '7']
                        && s@ != seq!['P', '9']);
                }
            }
        }
        r
    }
}

} // verus!
