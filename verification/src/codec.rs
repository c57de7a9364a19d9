//! Alphabet codec: a reversible encoding of a sequence number into a short
//! identifier over a configured alphabet, with a blocklist of outputs that
//! must never be produced.

use vstd::prelude::*;

verus! {

/// A well-formed alphabet has at least three characters, each a single byte
/// in UTF-8, and no character twice.
pub open spec fn alphabet_valid(a: Seq<char>) -> bool {
    &&& a.len() >= 3
    &&& forall|i: int| 0 <= i < a.len() ==> (#[trigger] a[i]) as u32 <= 127
    &&& forall|i: int, j: int| 0 <= i < j < a.len() ==> a[i] != a[j]
}

/// The blocklist, read as the set of forbidden output strings.
pub open spec fn blocklist_set(bl: Seq<String>) -> Set<Seq<char>> {
    bl.map_values(|s: String| s@).to_set()
}

/// The identifier that the underlying scheme produces for `n` under this
/// alphabet and blocklist, or `None` when every candidate is blocked.
pub uninterp spec fn sqids_id_of(alphabet: Seq<char>, blocklist: Set<Seq<char>>, n: u64) -> Option<
    Seq<char>,
>;

/// Relies on `sqids::SqidsBuilder::build` and `sqids::Sqids::encode`:
/// building a generator succeeds exactly when the alphabet has at least
/// three characters, all single-byte and pairwise distinct; the identifier
/// encoded for a number is a pure function of the alphabet, the blocklist
/// (read as a set) and the number; and distinct numbers never encode to the
/// same identifier, since an identifier decodes back to the number it was
/// generated from.
#[verifier::external_body]
fn sqids_encode_single(alphabet: &Vec<char>, blocklist: &Vec<String>, n: u64) -> (r: Option<String>)
    ensures
        alphabet_valid(alphabet@) ==> (match r {
            Some(s) => sqids_id_of(alphabet@, blocklist_set(blocklist@), n) == Some(s@),
            None => sqids_id_of(alphabet@, blocklist_set(blocklist@), n) is None,
        }),
        !alphabet_valid(alphabet@) ==> r is None,
        r matches Some(s) ==> forall|m: u64|
            m != n ==> sqids_id_of(alphabet@, blocklist_set(blocklist@), m) != Some(s@),
{
    let generator = sqids::Sqids::builder()
        .alphabet(alphabet.clone())
        .blocklist(blocklist.iter().cloned().collect())
        .build();
    match generator {
        Ok(g) => g.encode(&[n]).ok(),
        Err(_) => None,
    }
}

/// Why constructing a codec failed; the first broken rule, checking
/// single-byte characters, then the length, then uniqueness.
#[derive(Debug, PartialEq, Eq, Structural)]
pub enum ConfigError {
    /// The alphabet holds a character that is more than one byte in UTF-8.
    AlphabetMultibyte,
    /// The alphabet has fewer than three characters.
    AlphabetTooShort,
    /// The alphabet holds the same character twice.
    AlphabetNotUnique,
}

/// An identifier codec: a fixed alphabet and a blocklist of outputs that
/// must never be produced.
#[derive(Debug)]
pub struct Codec {
    alphabet: Vec<char>,
    blocklist: Vec<String>,
}

impl Codec {
    /// The configured alphabet.
    pub closed spec fn alphabet_m(&self) -> Seq<char> {
        self.alphabet@
    }

    /// The configured blocklist, as a set of strings.
    pub closed spec fn blocklist_m(&self) -> Set<Seq<char>> {
        blocklist_set(self.blocklist@)
    }

    /// A codec is well formed when its alphabet is.
    pub open spec fn wf(&self) -> bool {
        alphabet_valid(self.alphabet_m())
    }

    /// The identifier this codec yields for `n`: a single value determined
    /// by the configuration and the number alone.
    pub open spec fn encoded(&self, n: u64) -> Option<Seq<char>> {
        sqids_id_of(self.alphabet_m(), self.blocklist_m(), n)
    }

    /// Builds a codec, rejecting a degenerate alphabet up front: encoding
    /// itself never fails for configuration reasons.
    pub fn new(alphabet: Vec<char>, blocklist: Vec<String>) -> (r: Result<Codec, ConfigError>)
        ensures
            match r {
                Ok(c) => {
                    &&& alphabet_valid(alphabet@)
                    &&& c.wf()
                    &&& c.alphabet_m() == alphabet@
                    &&& c.blocklist_m() == blocklist_set(blocklist@)
                },
                Err(e) => {
                    &&& !alphabet_valid(alphabet@)
                    &&& (e == ConfigError::AlphabetMultibyte <==> exists|i: int|
                        0 <= i < alphabet@.len() && (#[trigger] alphabet@[i]) as u32 > 127)
                    &&& (e == ConfigError::AlphabetTooShort <==> (forall|i: int|
                        0 <= i < alphabet@.len() ==> (#[trigger] alphabet@[i]) as u32 <= 127)
                        && alphabet@.len() < 3)
                },
            },
    {
        let n = alphabet.len();
        let mut i: usize = 0;
        while i < n
            invariant
                i <= n,
                n == alphabet@.len(),
                forall|k: int| 0 <= k < i ==> (#[trigger] alphabet@[k]) as u32 <= 127,
            decreases n - i,
        {
            if alphabet[i] as u32 > 127 {
                return Err(ConfigError::AlphabetMultibyte);
            }
            i = i + 1;
        }
        if n < 3 {
            return Err(ConfigError::AlphabetTooShort);
        }
        let mut i: usize = 0;
        while i < n
            invariant
                i <= n,
                3 <= n == alphabet@.len(),
                forall|k: int| 0 <= k < n ==> (#[trigger] alphabet@[k]) as u32 <= 127,
                forall|k: int, l: int| 0 <= k < l < i ==> alphabet@[k] != alphabet@[l],
            decreases n - i,
        {
            let mut j: usize = 0;
            while j < i
                invariant
                    j <= i < n,
                    3 <= n == alphabet@.len(),
                    forall|k: int| 0 <= k < n ==> (#[trigger] alphabet@[k]) as u32 <= 127,
                    forall|k: int| 0 <= k < j ==> alphabet@[k] != alphabet@[i as int],
                decreases i - j,
            {
                if alphabet[j] == alphabet[i] {
                    return Err(ConfigError::AlphabetNotUnique);
                }
                j = j + 1;
            }
            proof {
                assert forall|k: int, l: int| 0 <= k < l < i + 1 implies alphabet@[k]
                    != alphabet@[l] by {
                    if l < i {
                    } else {
                        assert(alphabet@[k] != alphabet@[i as int]);
                    }
                }
            }
            i = i + 1;
        }
        Ok(Codec { alphabet, blocklist })
    }

    /// Encodes a sequence number. `None` only when the blocklist rejects
    /// every candidate the scheme can produce for `n`.
    ///
    /// The result is determined by the configuration and `n` alone, and two
    /// distinct numbers never share an identifier.
    pub fn encode(&self, n: u64) -> (r: Option<String>)
        requires
            self.wf(),
        ensures
            match r {
                Some(s) => self.encoded(n) == Some(s@),
                None => self.encoded(n) is None,
            },
            r matches Some(s) ==> forall|m: u64| m != n ==> self.encoded(m) != Some(s@),
    {
        sqids_encode_single(&self.alphabet, &self.blocklist, n)
    }
}

/// Law: encoding is deterministic. Two codecs with the same configuration
/// yield the same identifier for the same number, on every call.
pub proof fn lemma_encode_deterministic(c1: &Codec, c2: &Codec, n: u64)
    requires
        c1.alphabet_m() == c2.alphabet_m(),
        c1.blocklist_m() == c2.blocklist_m(),
    ensures
        c1.encoded(n) == c2.encoded(n),
{
}

} // verus!
