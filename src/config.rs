//! Relying-party settings of the passkey ceremonies.
use vstd::prelude::*;

verus! {

/// The separator between configured origins.
pub open spec fn origin_separator() -> char {
    ';'
}

/// `text` cut at every `sep`, read left to right: the empty text is one
/// empty piece, a separator starts a new piece, any other character ends
/// the last piece.
pub open spec fn split_at(text: Seq<char>, sep: char) -> Seq<Seq<char>>
    decreases text.len(),
{
    if text.len() == 0 {
        seq![Seq::empty()]
    } else {
        let pieces = split_at(text.drop_last(), sep);
        if text.last() == sep {
            pieces.push(Seq::empty())
        } else {
            pieces.update(pieces.len() - 1, pieces.last().push(text.last()))
        }
    }
}

/// Settings of the relying party and the pepper of password hashing.
pub struct AppConfiguration {
    pub pepper: String,
    pub rp_id: String,
    pub webauthn_allow_any_port: bool,
    pub webauthn_allow_subdomains: bool,
    pub rp_origins: String,
}

impl AppConfiguration {
    /// The configured origins, in order: the setting cut at every `;`.
    pub fn rp_origins(&self) -> (r: Vec<&str>)
        ensures
            r@.map_values(|p: &str| p@) == split_at(self.rp_origins@, origin_separator()),
    {
        let text = self.rp_origins.as_str();
        let n = text.unicode_len();
        let mut parts: Vec<&str> = Vec::new();
        let mut start: usize = 0;
        let mut i: usize = 0;
        proof {
            assert(text@.take(0) =~= Seq::<char>::empty());
            assert(parts@.map_values(|p: &str| p@).push(text@.subrange(0, 0)) =~= seq![
                Seq::<char>::empty(),
            ]);
        }
        while i < n
            invariant
                n == text@.len(),
                text@ == self.rp_origins@,
                start <= i <= n,
                parts@.map_values(|p: &str| p@).push(text@.subrange(start as int, i as int))
                    == split_at(text@.take(i as int), origin_separator()),
            decreases n - i,
        {
            let ghost before = parts@.map_values(|p: &str| p@);
            proof {
                assert(text@.take(i + 1).drop_last() =~= text@.take(i as int));
            }
            if text.get_char(i) == ';' {
                let piece = text.substring_char(start, i);
                parts.push(piece);
                start = i + 1;
                proof {
                    assert(parts@.map_values(|p: &str| p@) =~= before.push(piece@));
                    assert(text@.subrange(start as int, i + 1) =~= Seq::<char>::empty());
                }
            } else {
                proof {
                    assert(text@.subrange(start as int, i + 1) =~= text@.subrange(
                        start as int,
                        i as int,
                    ).push(text@[i as int]));
                    assert(before.push(text@.subrange(start as int, i + 1)) =~= before.push(
                        text@.subrange(start as int, i as int),
                    ).update(before.len() as int, text@.subrange(start as int, i + 1)));
                }
            }
            i = i + 1;
        }
        let last = text.substring_char(start, n);
        proof {
            assert(text@.take(n as int) =~= text@);
            assert(parts@.push(last).map_values(|p: &str| p@) =~= parts@.map_values(|p: &str| p@).push(
                last@,
            ));
        }
        parts.push(last);
        parts
    }
}

} // verus!
