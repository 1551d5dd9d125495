use vstd::prelude::*;

verus! {

/// Nine ordered grade bands, best first.
#[derive(Clone, Copy, Debug, PartialEq, Eq, Structural)]
pub enum RatingClassification {
    AAA,
    AA,
    A,
    BBB,
    BB,
    B,
    CCC,
    CC,
    C,
}

/// The band of a score: 900 and above AAA, then one band per 100 points, below 200 C.
pub open spec fn rating_of(score: int) -> RatingClassification {
    if score < 200 {
        RatingClassification::C
    } else if score < 300 {
        RatingClassification::CC
    } else if score < 400 {
        RatingClassification::CCC
    } else if score < 500 {
        RatingClassification::B
    } else if score < 600 {
        RatingClassification::BB
    } else if score < 700 {
        RatingClassification::BBB
    } else if score < 800 {
        RatingClassification::A
    } else if score < 900 {
        RatingClassification::AA
    } else {
        RatingClassification::AAA
    }
}

/// Grade number of a band: 1 for the best, 9 for the worst.
pub open spec fn grade(r: RatingClassification) -> int {
    match r {
        RatingClassification::AAA => 1,
        RatingClassification::AA => 2,
        RatingClassification::A => 3,
        RatingClassification::BBB => 4,
        RatingClassification::BB => 5,
        RatingClassification::B => 6,
        RatingClassification::CCC => 7,
        RatingClassification::CC => 8,
        RatingClassification::C => 9,
    }
}

/// The scores of grade `g` (1 to 9): `[1000 - 100 * g, 1100 - 100 * g)`, open above for
/// grade 1 and open below for grade 9.
pub open spec fn in_band(score: int, g: int) -> bool {
    &&& (g < 9 ==> score >= 1000 - 100 * g)
    &&& (g > 1 ==> score < 1100 - 100 * g)
}

impl RatingClassification {
    /// The band of a score.
    pub fn from_score(rating_score: i32) -> (r: Self)
        ensures
            r == rating_of(rating_score as int),
    {
        if rating_score < 200 {
            RatingClassification::C
        } else if rating_score < 300 {
            RatingClassification::CC
        } else if rating_score < 400 {
            RatingClassification::CCC
        } else if rating_score < 500 {
            RatingClassification::B
        } else if rating_score < 600 {
            RatingClassification::BB
        } else if rating_score < 700 {
            RatingClassification::BBB
        } else if rating_score < 800 {
            RatingClassification::A
        } else if rating_score < 900 {
            RatingClassification::AA
        } else {
            RatingClassification::AAA
        }
    }

    /// Grade number: 1 for the best band, 9 for the worst.
    pub fn grade(&self) -> (r: u8)
        ensures
            r as int == grade(*self),
    {
        match self {
            RatingClassification::AAA => 1,
            RatingClassification::AA => 2,
            RatingClassification::A => 3,
            RatingClassification::BBB => 4,
            RatingClassification::BB => 5,
            RatingClassification::B => 6,
            RatingClassification::CCC => 7,
            RatingClassification::CC => 8,
            RatingClassification::C => 9,
        }
    }
}

/// The stored text of a band.
pub open spec fn rating_label(r: RatingClassification) -> Seq<char> {
    match r {
        RatingClassification::AAA => "aaa"@,
        RatingClassification::AA => "aa"@,
        RatingClassification::A => "a"@,
        RatingClassification::BBB => "bbb"@,
        RatingClassification::BB => "bb"@,
        RatingClassification::B => "b"@,
        RatingClassification::CCC => "ccc"@,
        RatingClassification::CC => "cc"@,
        RatingClassification::C => "c"@,
    }
}

impl RatingClassification {
    /// The text under which the band is stored.
    pub fn db_label(&self) -> (r: &'static str)
        ensures
            r@ == rating_label(*self),
    {
        match self {
            RatingClassification::AAA => "aaa",
            RatingClassification::AA => "aa",
            RatingClassification::A => "a",
            RatingClassification::BBB => "bbb",
            RatingClassification::BB => "bb",
            RatingClassification::B => "b",
            RatingClassification::CCC => "ccc",
            RatingClassification::CC => "cc",
            RatingClassification::C => "c",
        }
    }

    /// The band stored under `text`; `None` for a text that names no band.
    pub fn from_db_label(text: &str) -> (r: Option<Self>)
        ensures
            r.is_some() ==> rating_label(r.unwrap()) == text@,
            r.is_none() ==> forall|c: RatingClassification| rating_label(c) != text@,
    {
        let t = String::from_str(text);
        if t == String::from_str("aaa") {
            Some(RatingClassification::AAA)
        } else if t == String::from_str("aa") {
            Some(RatingClassification::AA)
        } else if t == String::from_str("a") {
            Some(RatingClassification::A)
        } else if t == String::from_str("bbb") {
            Some(RatingClassification::BBB)
        } else if t == String::from_str("bb") {
            Some(RatingClassification::BB)
        } else if t == String::from_str("b") {
            Some(RatingClassification::B)
        } else if t == String::from_str("ccc") {
            Some(RatingClassification::CCC)
        } else if t == String::from_str("cc") {
            Some(RatingClassification::CC)
        } else if t == String::from_str("c") {
            Some(RatingClassification::C)
        } else {
            None
        }
    }
}

/// Banding is a step function of the score: every score lies in the band of its grade and
/// in no other band, so each boundary score falls on exactly one side.
pub proof fn lemma_rating_bands_partition(score: int)
    ensures
        1 <= grade(rating_of(score)) <= 9,
        in_band(score, grade(rating_of(score))),
        forall|g: int| 1 <= g <= 9 && #[trigger] in_band(score, g) ==> g == grade(rating_of(score)),
{
}

/// Banding is monotonic: a higher score never gets a worse grade.
pub proof fn lemma_rating_monotonic(lo: int, hi: int)
    requires
        lo <= hi,
    ensures
        grade(rating_of(hi)) <= grade(rating_of(lo)),
{
}

} // verus!
