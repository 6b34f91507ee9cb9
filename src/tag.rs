use vstd::prelude::*;

use crate::error::DataError;

verus! {

/// A part-of-speech tag of the closed vocabulary.
#[derive(Clone, Copy, Debug, PartialEq, Eq, Hash, Structural)]
pub enum Tag {
    /// Conjunction, coordinating
    CC,
    /// Adjective, cardinal number
    CD,
    /// Determiner
    DET,
    /// Pronoun, existential there
    EX,
    /// Foreign words
    FW,
    /// Preposition / Conjunction
    IN,
    /// Adjective
    JJ,
    /// Adjective, comparative
    JJR,
    /// Adjective, superlative
    JJS,
    /// Symbol, list item
    LS,
    /// Verb, modal
    MD,
    /// Noun
    NN,
    /// Noun, proper
    NNP,
    /// Noun, proper, plural
    NNPS,
    /// Noun, plural
    NNS,
    /// Determiner, prequalifier
    PDT,
    /// Possessive
    POS,
    /// Determiner, possessive second
    PRP,
    /// Determiner, possessive
    PRPS,
    /// Adverb
    RB,
    /// Adverb, comparative
    RBR,
    /// Adverb, superlative
    RBS,
    /// Adverb, particle
    RP,
    /// Symbol
    SYM,
    /// Preposition
    TO,
    /// Interjection
    UH,
    /// Verb, infinitive
    VB,
    /// Verb, past tense
    VBD,
    /// Verb, gerund
    VBG,
    /// Verb, past/passive participle
    VBN,
    /// Verb, base present form
    VBP,
    /// Verb, present 3SG -s form
    VBZ,
    /// Determiner, question
    WDT,
    /// Pronoun, question
    WP,
    /// Determiner, possessive & question
    WPS,
    /// Adverb, question
    WRB,
    /// Punctuation, sentence ender
    PP,
    /// Punctuation, comma
    PPC,
    /// Punctuation, dollar sign
    PPD,
    /// Punctuation, quotation mark left
    PPL,
    /// Punctuation, quotation mark right
    PPR,
    /// Punctuation, colon, semicolon, elipsis
    PPS,
    /// Punctuation, left bracket
    LRB,
    /// Punctuation, right bracket
    RRB,
}

impl Tag {
    /// The canonical lowercase code of the tag.
    pub open spec fn code(self) -> Seq<char> {
        match self {
            Tag::CC => seq!['c', 'c'],
            Tag::CD => seq!['c', 'd'],
            Tag::DET => seq!['d', 'e', 't'],
            Tag::EX => seq!['e', 'x'],
            Tag::FW => seq!['f', 'w'],
            Tag::IN => seq!['i', 'n'],
            Tag::JJ => seq!['j', 'j'],
            Tag::JJR => seq!['j', 'j', 'r'],
            Tag::JJS => seq!['j', 'j', 's'],
            Tag::LS => seq!['l', 's'],
            Tag::MD => seq!['m', 'd'],
            Tag::NN => seq!['n', 'n'],
            Tag::NNP => seq!['n', 'n', 'p'],
            Tag::NNPS => seq!['n', 'n', 'p', 's'],
            Tag::NNS => seq!['n', 'n', 's'],
            Tag::PDT => seq!['p', 'd', 't'],
            Tag::POS => seq!['p', 'o', 's'],
            Tag::PRP => seq!['p', 'r', 'p'],
            Tag::PRPS => seq!['p', 'r', 'p', 's'],
            Tag::RB => seq!['r', 'b'],
            Tag::RBR => seq!['r', 'b', 'r'],
            Tag::RBS => seq!['r', 'b', 's'],
            Tag::RP => seq!['r', 'p'],
            Tag::SYM => seq!['s', 'y', 'm'],
            Tag::TO => seq!['t', 'o'],
            Tag::UH => seq!['u', 'h'],
            Tag::VB => seq!['v', 'b'],
            Tag::VBD => seq!['v', 'b', 'd'],
            Tag::VBG => seq!['v', 'b', 'g'],
            Tag::VBN => seq!['v', 'b', 'n'],
            Tag::VBP => seq!['v', 'b', 'p'],
            Tag::VBZ => seq!['v', 'b', 'z'],
            Tag::WDT => seq!['w', 'd', 't'],
            Tag::WP => seq!['w', 'p'],
            Tag::WPS => seq!['w', 'p', 's'],
            Tag::WRB => seq!['w', 'r', 'b'],
            Tag::PP => seq!['p', 'p'],
            Tag::PPC => seq!['p', 'p', 'c'],
            Tag::PPD => seq!['p', 'p', 'd'],
            Tag::PPL => seq!['p', 'p', 'l'],
            Tag::PPR => seq!['p', 'p', 'r'],
            Tag::PPS => seq!['p', 'p', 's'],
            Tag::LRB => seq!['l', 'r', 'b'],
            Tag::RRB => seq!['r', 'r', 'b'],
        }
    }

    /// Encodes the tag as its canonical code.
    pub fn encode(&self) -> (r: &'static str)
        ensures
            r@ == self.code(),
    {
        let r = match self {
            Tag::CC => {
                proof { reveal_strlit("cc"); }
                "cc"
            },
            Tag::CD => {
                proof { reveal_strlit("cd"); }
                "cd"
            },
            Tag::DET => {
                proof { reveal_strlit("det"); }
                "det"
            },
            Tag::EX => {
                proof { reveal_strlit("ex"); }
                "ex"
            },
            Tag::FW => {
                proof { reveal_strlit("fw"); }
                "fw"
            },
            Tag::IN => {
                proof { reveal_strlit("in"); }
                "in"
            },
            Tag::JJ => {
                proof { reveal_strlit("jj"); }
                "jj"
            },
            Tag::JJR => {
                proof { reveal_strlit("jjr"); }
                "jjr"
            },
            Tag::JJS => {
                proof { reveal_strlit("jjs"); }
                "jjs"
            },
            Tag::LS => {
                proof { reveal_strlit("ls"); }
                "ls"
            },
            Tag::MD => {
                proof { reveal_strlit("md"); }
                "md"
            },
            Tag::NN => {
                proof { reveal_strlit("nn"); }
                "nn"
            },
            Tag::NNP => {
                proof { reveal_strlit("nnp"); }
                "nnp"
            },
            Tag::NNPS => {
                proof { reveal_strlit("nnps"); }
                "nnps"
            },
            Tag::NNS => {
                proof { reveal_strlit("nns"); }
                "nns"
            },
            Tag::PDT => {
                proof { reveal_strlit("pdt"); }
                "pdt"
            },
            Tag::POS => {
                proof { reveal_strlit("pos"); }
                "pos"
            },
            Tag::PRP => {
                proof { reveal_strlit("prp"); }
                "prp"
            },
            Tag::PRPS => {
                proof { reveal_strlit("prps"); }
                "prps"
            },
            Tag::RB => {
                proof { reveal_strlit("rb"); }
                "rb"
            },
            Tag::RBR => {
                proof { reveal_strlit("rbr"); }
                "rbr"
            },
            Tag::RBS => {
                proof { reveal_strlit("rbs"); }
                "rbs"
            },
            Tag::RP => {
                proof { reveal_strlit("rp"); }
                "rp"
            },
            Tag::SYM => {
                proof { reveal_strlit("sym"); }
                "sym"
            },
            Tag::TO => {
                proof { reveal_strlit("to"); }
                "to"
            },
            Tag::UH => {
                proof { reveal_strlit("uh"); }
                "uh"
            },
            Tag::VB => {
                proof { reveal_strlit("vb"); }
                "vb"
            },
            Tag::VBD => {
                proof { reveal_strlit("vbd"); }
                "vbd"
            },
            Tag::VBG => {
                proof { reveal_strlit("vbg"); }
                "vbg"
            },
            Tag::VBN => {
                proof { reveal_strlit("vbn"); }
                "vbn"
            },
            Tag::VBP => {
                proof { reveal_strlit("vbp"); }
                "vbp"
            },
            Tag::VBZ => {
                proof { reveal_strlit("vbz"); }
                "vbz"
            },
            Tag::WDT => {
                proof { reveal_strlit("wdt"); }
                "wdt"
            },
            Tag::WP => {
                proof { reveal_strlit("wp"); }
                "wp"
            },
            Tag::WPS => {
                proof { reveal_strlit("wps"); }
                "wps"
            },
            Tag::WRB => {
                proof { reveal_strlit("wrb"); }
                "wrb"
            },
            Tag::PP => {
                proof { reveal_strlit("pp"); }
                "pp"
            },
            Tag::PPC => {
                proof { reveal_strlit("ppc"); }
                "ppc"
            },
            Tag::PPD => {
                proof { reveal_strlit("ppd"); }
                "ppd"
            },
            Tag::PPL => {
                proof { reveal_strlit("ppl"); }
                "ppl"
            },
            Tag::PPR => {
                proof { reveal_strlit("ppr"); }
                "ppr"
            },
            Tag::PPS => {
                proof { reveal_strlit("pps"); }
                "pps"
            },
            Tag::LRB => {
                proof { reveal_strlit("lrb"); }
                "lrb"
            },
            Tag::RRB => {
                proof { reveal_strlit("rrb"); }
                "rrb"
            },
        };
        assert(r@ =~= self.code());
        r
    }

    /// Parses a canonical code: exactly the codes of the vocabulary are accepted,
    /// case-sensitively, and any other text is an invalid tag.
    pub fn from_str(code: &str) -> (r: Result<Tag, DataError>)
        ensures
            r is Ok <==> exists|t: Tag| t.code() == code@,
            r matches Ok(t) ==> t.code() == code@,
            forall|t: Tag| t.code() == code@ ==> r == Ok::<Tag, DataError>(t),
            r matches Err(e) ==> e matches DataError::InvalidTag(s) && s@ == code@,
    {
        let n = code.unicode_len();
        let found = if n == 2 {
            let a = code.get_char(0);
            let b = code.get_char(1);
            assert(code@ =~= seq![a, b]);
            tag_of_pair(a, b)
        } else if n == 3 {
            let a = code.get_char(0);
            let b = code.get_char(1);
            let c = code.get_char(2);
            assert(code@ =~= seq![a, b, c]);
            tag_of_triple(a, b, c)
        } else if n == 4 {
            let a = code.get_char(0);
            let b = code.get_char(1);
            let c = code.get_char(2);
            let d = code.get_char(3);
            assert(code@ =~= seq![a, b, c, d]);
            tag_of_quad(a, b, c, d)
        } else {
            assert forall|t: Tag| t.code() != code@ by {
                match t {
                    Tag::CC => {},
                    Tag::CD => {},
                    Tag::DET => {},
                    Tag::EX => {},
                    Tag::FW => {},
                    Tag::IN => {},
                    Tag::JJ => {},
                    Tag::JJR => {},
                    Tag::JJS => {},
                    Tag::LS => {},
                    Tag::MD => {},
                    Tag::NN => {},
                    Tag::NNP => {},
                    Tag::NNPS => {},
                    Tag::NNS => {},
                    Tag::PDT => {},
                    Tag::POS => {},
                    Tag::PRP => {},
                    Tag::PRPS => {},
                    Tag::RB => {},
                    Tag::RBR => {},
                    Tag::RBS => {},
                    Tag::RP => {},
                    Tag::SYM => {},
                    Tag::TO => {},
                    Tag::UH => {},
                    Tag::VB => {},
                    Tag::VBD => {},
                    Tag::VBG => {},
                    Tag::VBN => {},
                    Tag::VBP => {},
                    Tag::VBZ => {},
                    Tag::WDT => {},
                    Tag::WP => {},
                    Tag::WPS => {},
                    Tag::WRB => {},
                    Tag::PP => {},
                    Tag::PPC => {},
                    Tag::PPD => {},
                    Tag::PPL => {},
                    Tag::PPR => {},
                    Tag::PPS => {},
                    Tag::LRB => {},
                    Tag::RRB => {},
                }
            }
            None
        };
        proof {
            if let Some(t) = found {
                assert forall|u: Tag| u.code() == code@ implies found == Some(u) by {
                    lemma_round_trip(t, u);
                }
            }
        }
        match found {
            Some(t) => Ok(t),
            None => Err(DataError::InvalidTag(String::from_str(code))),
        }
    }
}

impl std::str::FromStr for Tag {
    type Err = DataError;

    fn from_str(code: &str) -> Result<Tag, DataError> {
        Tag::from_str(code)
    }
}

/// The tag whose code is the 2 characters given, in order.
fn tag_of_pair(a: char, b: char) -> (r: Option<Tag>)
    ensures
        match r {
            Some(t) => t.code() == seq![a, b],
            None => forall|t: Tag| t.code() != seq![a, b],
        },
{
    let r = if a == 'c' && b == 'c' {
        Some(Tag::CC)
    } else if a == 'c' && b == 'd' {
        Some(Tag::CD)
    } else if a == 'e' && b == 'x' {
        Some(Tag::EX)
    } else if a == 'f' && b == 'w' {
        Some(Tag::FW)
    } else if a == 'i' && b == 'n' {
        Some(Tag::IN)
    } else if a == 'j' && b == 'j' {
        Some(Tag::JJ)
    } else if a == 'l' && b == 's' {
        Some(Tag::LS)
    } else if a == 'm' && b == 'd' {
        Some(Tag::MD)
    } else if a == 'n' && b == 'n' {
        Some(Tag::NN)
    } else if a == 'r' && b == 'b' {
        Some(Tag::RB)
    } else if a == 'r' && b == 'p' {
        Some(Tag::RP)
    } else if a == 't' && b == 'o' {
        Some(Tag::TO)
    } else if a == 'u' && b == 'h' {
        Some(Tag::UH)
    } else if a == 'v' && b == 'b' {
        Some(Tag::VB)
    } else if a == 'w' && b == 'p' {
        Some(Tag::WP)
    } else if a == 'p' && b == 'p' {
        Some(Tag::PP)
    } else {
        None
    };
    proof {
        let s = seq![a, b];
        assert(s.len() == 2 && s[0] == a && s[1] == b);
        match r {
            Some(t) => assert(t.code() =~= s),
            None => assert forall|t: Tag| t.code() != s by {
                match t {
                    Tag::CC => {},
                    Tag::CD => {},
                    Tag::DET => {},
                    Tag::EX => {},
                    Tag::FW => {},
                    Tag::IN => {},
                    Tag::JJ => {},
                    Tag::JJR => {},
                    Tag::JJS => {},
                    Tag::LS => {},
                    Tag::MD => {},
                    Tag::NN => {},
                    Tag::NNP => {},
                    Tag::NNPS => {},
                    Tag::NNS => {},
                    Tag::PDT => {},
                    Tag::POS => {},
                    Tag::PRP => {},
                    Tag::PRPS => {},
                    Tag::RB => {},
                    Tag::RBR => {},
                    Tag::RBS => {},
                    Tag::RP => {},
                    Tag::SYM => {},
                    Tag::TO => {},
                    Tag::UH => {},
                    Tag::VB => {},
                    Tag::VBD => {},
                    Tag::VBG => {},
                    Tag::VBN => {},
                    Tag::VBP => {},
                    Tag::VBZ => {},
                    Tag::WDT => {},
                    Tag::WP => {},
                    Tag::WPS => {},
                    Tag::WRB => {},
                    Tag::PP => {},
                    Tag::PPC => {},
                    Tag::PPD => {},
                    Tag::PPL => {},
                    Tag::PPR => {},
                    Tag::PPS => {},
                    Tag::LRB => {},
                    Tag::RRB => {},
                }
            },
        }
    }
    r
}

/// The tag whose code is the 3 characters given, in order.
fn tag_of_triple(a: char, b: char, c: char) -> (r: Option<Tag>)
    ensures
        match r {
            Some(t) => t.code() == seq![a, b, c],
            None => forall|t: Tag| t.code() != seq![a, b, c],
        },
{
    let r = if a == 'd' && b == 'e' && c == 't' {
        Some(Tag::DET)
    } else if a == 'j' && b == 'j' && c == 'r' {
        Some(Tag::JJR)
    } else if a == 'j' && b == 'j' && c == 's' {
        Some(Tag::JJS)
    } else if a == 'n' && b == 'n' && c == 'p' {
        Some(Tag::NNP)
    } else if a == 'n' && b == 'n' && c == 's' {
        Some(Tag::NNS)
    } else if a == 'p' && b == 'd' && c == 't' {
        Some(Tag::PDT)
    } else if a == 'p' && b == 'o' && c == 's' {
        Some(Tag::POS)
    } else if a == 'p' && b == 'r' && c == 'p' {
        Some(Tag::PRP)
    } else if a == 'r' && b == 'b' && c == 'r' {
        Some(Tag::RBR)
    } else if a == 'r' && b == 'b' && c == 's' {
        Some(Tag::RBS)
    } else if a == 's' && b == 'y' && c == 'm' {
        Some(Tag::SYM)
    } else if a == 'v' && b == 'b' && c == 'd' {
        Some(Tag::VBD)
    } else if a == 'v' && b == 'b' && c == 'g' {
        Some(Tag::VBG)
    } else if a == 'v' && b == 'b' && c == 'n' {
        Some(Tag::VBN)
    } else if a == 'v' && b == 'b' && c == 'p' {
        Some(Tag::VBP)
    } else if a == 'v' && b == 'b' && c == 'z' {
        Some(Tag::VBZ)
    } else if a == 'w' && b == 'd' && c == 't' {
        Some(Tag::WDT)
    } else if a == 'w' && b == 'p' && c == 's' {
        Some(Tag::WPS)
    } else if a == 'w' && b == 'r' && c == 'b' {
        Some(Tag::WRB)
    } else if a == 'p' && b == 'p' && c == 'c' {
        Some(Tag::PPC)
    } else if a == 'p' && b == 'p' && c == 'd' {
        Some(Tag::PPD)
    } else if a == 'p' && b == 'p' && c == 'l' {
        Some(Tag::PPL)
    } else if a == 'p' && b == 'p' && c == 'r' {
        Some(Tag::PPR)
    } else if a == 'p' && b == 'p' && c == 's' {
        Some(Tag::PPS)
    } else if a == 'l' && b == 'r' && c == 'b' {
        Some(Tag::LRB)
    } else if a == 'r' && b == 'r' && c == 'b' {
        Some(Tag::RRB)
    } else {
        None
    };
    proof {
        let s = seq![a, b, c];
        assert(s.len() == 3 && s[0] == a && s[1] == b && s[2] == c);
        match r {
            Some(t) => assert(t.code() =~= s),
            None => assert forall|t: Tag| t.code() != s by {
                match t {
                    Tag::CC => {},
                    Tag::CD => {},
                    Tag::DET => {},
                    Tag::EX => {},
                    Tag::FW => {},
                    Tag::IN => {},
                    Tag::JJ => {},
                    Tag::JJR => {},
                    Tag::JJS => {},
                    Tag::LS => {},
                    Tag::MD => {},
                    Tag::NN => {},
                    Tag::NNP => {},
                    Tag::NNPS => {},
                    Tag::NNS => {},
                    Tag::PDT => {},
                    Tag::POS => {},
                    Tag::PRP => {},
                    Tag::PRPS => {},
                    Tag::RB => {},
                    Tag::RBR => {},
                    Tag::RBS => {},
                    Tag::RP => {},
                    Tag::SYM => {},
                    Tag::TO => {},
                    Tag::UH => {},
                    Tag::VB => {},
                    Tag::VBD => {},
                    Tag::VBG => {},
                    Tag::VBN => {},
                    Tag::VBP => {},
                    Tag::VBZ => {},
                    Tag::WDT => {},
                    Tag::WP => {},
                    Tag::WPS => {},
                    Tag::WRB => {},
                    Tag::PP => {},
                    Tag::PPC => {},
                    Tag::PPD => {},
                    Tag::PPL => {},
                    Tag::PPR => {},
                    Tag::PPS => {},
                    Tag::LRB => {},
                    Tag::RRB => {},
                }
            },
        }
    }
    r
}

/// The tag whose code is the 4 characters given, in order.
fn tag_of_quad(a: char, b: char, c: char, d: char) -> (r: Option<Tag>)
    ensures
        match r {
            Some(t) => t.code() == seq![a, b, c, d],
            None => forall|t: Tag| t.code() != seq![a, b, c, d],
        },
{
    let r = if a == 'n' && b == 'n' && c == 'p' && d == 's' {
        Some(Tag::NNPS)
    } else if a == 'p' && b == 'r' && c == 'p' && d == 's' {
        Some(Tag::PRPS)
    } else {
        None
    };
    proof {
        let s = seq![a, b, c, d];
        assert(s.len() == 4 && s[0] == a && s[1] == b && s[2] == c && s[3] == d);
        match r {
            Some(t) => assert(t.code() =~= s),
            None => assert forall|t: Tag| t.code() != s by {
                match t {
                    Tag::CC => {},
                    Tag::CD => {},
                    Tag::DET => {},
                    Tag::EX => {},
                    Tag::FW => {},
                    Tag::IN => {},
                    Tag::JJ => {},
                    Tag::JJR => {},
                    Tag::JJS => {},
                    Tag::LS => {},
                    Tag::MD => {},
                    Tag::NN => {},
                    Tag::NNP => {},
                    Tag::NNPS => {},
                    Tag::NNS => {},
                    Tag::PDT => {},
                    Tag::POS => {},
                    Tag::PRP => {},
                    Tag::PRPS => {},
                    Tag::RB => {},
                    Tag::RBR => {},
                    Tag::RBS => {},
                    Tag::RP => {},
                    Tag::SYM => {},
                    Tag::TO => {},
                    Tag::UH => {},
                    Tag::VB => {},
                    Tag::VBD => {},
                    Tag::VBG => {},
                    Tag::VBN => {},
                    Tag::VBP => {},
                    Tag::VBZ => {},
                    Tag::WDT => {},
                    Tag::WP => {},
                    Tag::WPS => {},
                    Tag::WRB => {},
                    Tag::PP => {},
                    Tag::PPC => {},
                    Tag::PPD => {},
                    Tag::PPL => {},
                    Tag::PPR => {},
                    Tag::PPS => {},
                    Tag::LRB => {},
                    Tag::RRB => {},
                }
            },
        }
    }
    r
}

/// The tag whose canonical code is `s`, if there is one.
pub open spec fn tag_of(s: Seq<char>) -> Option<Tag> {
    if exists|t: Tag| t.code() == s {
        Some(choose|t: Tag| t.code() == s)
    } else {
        None
    }
}

/// Round trip: the only tag that the code of `t` reads as is `t` itself, so
/// parsing the encoding of a tag gives the tag back.
pub proof fn lemma_round_trip(t: Tag, u: Tag)
    requires
        u.code() == t.code(),
    ensures
        u == t,
{
    let s = t.code();
    match t {
        Tag::CC => assert(s.len() == 2 && s[0] == 'c' && s[1] == 'c'),
        Tag::CD => assert(s.len() == 2 && s[0] == 'c' && s[1] == 'd'),
        Tag::DET => assert(s.len() == 3 && s[0] == 'd' && s[1] == 'e' && s[2] == 't'),
        Tag::EX => assert(s.len() == 2 && s[0] == 'e' && s[1] == 'x'),
        Tag::FW => assert(s.len() == 2 && s[0] == 'f' && s[1] == 'w'),
        Tag::IN => assert(s.len() == 2 && s[0] == 'i' && s[1] == 'n'),
        Tag::JJ => assert(s.len() == 2 && s[0] == 'j' && s[1] == 'j'),
        Tag::JJR => assert(s.len() == 3 && s[0] == 'j' && s[1] == 'j' && s[2] == 'r'),
        Tag::JJS => assert(s.len() == 3 && s[0] == 'j' && s[1] == 'j' && s[2] == 's'),
        Tag::LS => assert(s.len() == 2 && s[0] == 'l' && s[1] == 's'),
        Tag::MD => assert(s.len() == 2 && s[0] == 'm' && s[1] == 'd'),
        Tag::NN => assert(s.len() == 2 && s[0] == 'n' && s[1] == 'n'),
        Tag::NNP => assert(s.len() == 3 && s[0] == 'n' && s[1] == 'n' && s[2] == 'p'),
        Tag::NNPS => assert(s.len() == 4 && s[0] == 'n' && s[1] == 'n' && s[2] == 'p' && s[3] == 's'),
        Tag::NNS => assert(s.len() == 3 && s[0] == 'n' && s[1] == 'n' && s[2] == 's'),
        Tag::PDT => assert(s.len() == 3 && s[0] == 'p' && s[1] == 'd' && s[2] == 't'),
        Tag::POS => assert(s.len() == 3 && s[0] == 'p' && s[1] == 'o' && s[2] == 's'),
        Tag::PRP => assert(s.len() == 3 && s[0] == 'p' && s[1] == 'r' && s[2] == 'p'),
        Tag::PRPS => assert(s.len() == 4 && s[0] == 'p' && s[1] == 'r' && s[2] == 'p' && s[3] == 's'),
        Tag::RB => assert(s.len() == 2 && s[0] == 'r' && s[1] == 'b'),
        Tag::RBR => assert(s.len() == 3 && s[0] == 'r' && s[1] == 'b' && s[2] == 'r'),
        Tag::RBS => assert(s.len() == 3 && s[0] == 'r' && s[1] == 'b' && s[2] == 's'),
        Tag::RP => assert(s.len() == 2 && s[0] == 'r' && s[1] == 'p'),
        Tag::SYM => assert(s.len() == 3 && s[0] == 's' && s[1] == 'y' && s[2] == 'm'),
        Tag::TO => assert(s.len() == 2 && s[0] == 't' && s[1] == 'o'),
        Tag::UH => assert(s.len() == 2 && s[0] == 'u' && s[1] == 'h'),
        Tag::VB => assert(s.len() == 2 && s[0] == 'v' && s[1] == 'b'),
        Tag::VBD => assert(s.len() == 3 && s[0] == 'v' && s[1] == 'b' && s[2] == 'd'),
        Tag::VBG => assert(s.len() == 3 && s[0] == 'v' && s[1] == 'b' && s[2] == 'g'),
        Tag::VBN => assert(s.len() == 3 && s[0] == 'v' && s[1] == 'b' && s[2] == 'n'),
        Tag::VBP => assert(s.len() == 3 && s[0] == 'v' && s[1] == 'b' && s[2] == 'p'),
        Tag::VBZ => assert(s.len() == 3 && s[0] == 'v' && s[1] == 'b' && s[2] == 'z'),
        Tag::WDT => assert(s.len() == 3 && s[0] == 'w' && s[1] == 'd' && s[2] == 't'),
        Tag::WP => assert(s.len() == 2 && s[0] == 'w' && s[1] == 'p'),
        Tag::WPS => assert(s.len() == 3 && s[0] == 'w' && s[1] == 'p' && s[2] == 's'),
        Tag::WRB => assert(s.len() == 3 && s[0] == 'w' && s[1] == 'r' && s[2] == 'b'),
        Tag::PP => assert(s.len() == 2 && s[0] == 'p' && s[1] == 'p'),
        Tag::PPC => assert(s.len() == 3 && s[0] == 'p' && s[1] == 'p' && s[2] == 'c'),
        Tag::PPD => assert(s.len() == 3 && s[0] == 'p' && s[1] == 'p' && s[2] == 'd'),
        Tag::PPL => assert(s.len() == 3 && s[0] == 'p' && s[1] == 'p' && s[2] == 'l'),
        Tag::PPR => assert(s.len() == 3 && s[0] == 'p' && s[1] == 'p' && s[2] == 'r'),
        Tag::PPS => assert(s.len() == 3 && s[0] == 'p' && s[1] == 'p' && s[2] == 's'),
        Tag::LRB => assert(s.len() == 3 && s[0] == 'l' && s[1] == 'r' && s[2] == 'b'),
        Tag::RRB => assert(s.len() == 3 && s[0] == 'r' && s[1] == 'r' && s[2] == 'b'),
    }
}

/// Reading a tag's own code gives the tag back.
pub proof fn lemma_tag_of_code(t: Tag)
    ensures
        tag_of(t.code()) == Some(t),
{
    let u = choose|u: Tag| u.code() == t.code();
    lemma_round_trip(t, u);
}

/// Whatever text reads as a tag is exactly that tag's code.
pub proof fn lemma_tag_of_sound(s: Seq<char>)
    requires
        tag_of(s) is Some,
    ensures
        tag_of(s)->0.code() == s,
{
}

} // verus!
