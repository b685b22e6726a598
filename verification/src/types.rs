//! Derivation paths, the application's version, and the key material the
//! device returns.

use crate::error::{ErrorView, LedgerError};
use crate::text::{decimal, hex_encode, lower_hex, push_decimal};
use crate::wire::{le_bytes, le_value, lemma_le_bytes_len, lemma_u32_le_round_trip, read_u32_le, write_u32_le};
use vstd::prelude::*;
use vstd::string::*;

verus! {

/// The bit that marks a hardened component.
pub const HARDENED: u32 = 0x8000_0000;

/// The purpose component `44'`.
pub const PURPOSE: u32 = 0x8000_002C;

/// The coin type `4218'` of the main network.
pub const COIN_MAINNET: u32 = 0x8000_107A;

/// The coin type `1'` of the test networks.
pub const COIN_TESTNET: u32 = 0x8000_0001;

/// A component is hardened when its most significant bit is set.
pub open spec fn is_hardened(c: u32) -> bool {
    c >= 0x8000_0000
}

/// A valid path has at least two components, starts with `44'` and one of
/// the two coin types, and has only hardened components.
pub open spec fn valid_path(c: Seq<u32>) -> bool {
    &&& c.len() >= 2
    &&& c[0] == 0x8000_002C
    &&& (c[1] == 0x8000_107A || c[1] == 0x8000_0001)
    &&& forall|i: int| 0 <= i < c.len() ==> is_hardened(#[trigger] c[i])
}

/// The position of the first component that is not hardened; the length
/// where all are.
pub open spec fn first_unhardened(c: Seq<u32>) -> nat
    decreases c.len(),
{
    if c.len() == 0 || !is_hardened(c[0]) {
        0
    } else {
        1 + first_unhardened(c.skip(1))
    }
}

/// Why a sequence of components is not a valid path: the first of the
/// checks that fails, in the order length, purpose, coin type, hardening.
pub open spec fn path_fault(c: Seq<u32>) -> Seq<char> {
    if c.len() < 2 {
        "path must have at least 2 components"@
    } else if c[0] != 0x8000_002C {
        "first component must be 44'"@
    } else if c[1] != 0x8000_107A && c[1] != 0x8000_0001 {
        "coin type must be 4218' (mainnet) or 1' (testnet)"@
    } else {
        "component "@ + decimal(first_unhardened(c)) + " must be hardened"@
    }
}

proof fn lemma_first_unhardened(c: Seq<u32>, i: int)
    requires
        0 <= i <= c.len(),
        forall|j: int| 0 <= j < i ==> is_hardened(#[trigger] c[j]),
        i < c.len() ==> !is_hardened(c[i]),
    ensures
        first_unhardened(c) == i,
    decreases i,
{
    if i > 0 {
        assert(is_hardened(c[0]));
        let rest = c.skip(1);
        assert forall|j: int| 0 <= j < i - 1 implies is_hardened(#[trigger] rest[j]) by {
            assert(rest[j] == c[j + 1]);
        }
        lemma_first_unhardened(rest, i - 1);
    }
}

/// The components of a path on the wire: four little-endian bytes each.
pub open spec fn components_wire(c: Seq<u32>) -> Seq<u8>
    decreases c.len(),
{
    if c.len() == 0 {
        Seq::empty()
    } else {
        components_wire(c.drop_last()) + le_bytes(c.last() as nat, 4)
    }
}

/// A path on the wire: `[count: u8][component: u32 LE]*`. The count is
/// written in one byte.
pub open spec fn path_wire(c: Seq<u32>) -> Seq<u8> {
    seq![(c.len() % 256) as u8] + components_wire(c)
}

/// Why a byte string is not the wire form of a valid path.
pub open spec fn wire_fault(bytes: Seq<u8>) -> Seq<char> {
    if bytes.len() == 0 {
        "path is empty"@
    } else {
        match parse_path(bytes) {
            Some(c) => path_fault(c),
            None => "path length does not match its count"@,
        }
    }
}

/// The components that a byte string holds, if it is well formed: a count
/// byte, then exactly four bytes for each component.
pub open spec fn parse_path(bytes: Seq<u8>) -> Option<Seq<u32>> {
    if bytes.len() >= 1 && bytes.len() == 1 + 4 * (bytes[0] as int) {
        Some(
            Seq::new(
                bytes[0] as nat,
                |i: int| le_value(bytes.subrange(1 + 4 * i, 5 + 4 * i)) as u32,
            ),
        )
    } else {
        None
    }
}

/// The components on the wire take four bytes each, and the four bytes of
/// the `i`-th are its little-endian encoding.
pub proof fn lemma_components_wire(c: Seq<u32>, i: int)
    requires
        0 <= i < c.len(),
    ensures
        components_wire(c).len() == 4 * c.len(),
        components_wire(c).subrange(4 * i, 4 * i + 4) == le_bytes(c[i] as nat, 4),
    decreases c.len(),
{
    lemma_components_wire_len(c);
    lemma_components_wire_len(c.drop_last());
    lemma_le_bytes_len(c.last() as nat, 4);
    if i == c.len() - 1 {
        assert(components_wire(c).subrange(4 * i, 4 * i + 4) =~= le_bytes(c[i] as nat, 4));
    } else {
        lemma_components_wire(c.drop_last(), i);
        assert(components_wire(c).subrange(4 * i, 4 * i + 4) =~= components_wire(
            c.drop_last(),
        ).subrange(4 * i, 4 * i + 4));
    }
}

/// The components on the wire take four bytes each.
pub proof fn lemma_components_wire_len(c: Seq<u32>)
    ensures
        components_wire(c).len() == 4 * c.len(),
    decreases c.len(),
{
    if c.len() > 0 {
        lemma_components_wire_len(c.drop_last());
        lemma_le_bytes_len(c.last() as nat, 4);
    }
}

/// A path of at most 255 components is read back from its wire form as it
/// was, and the wire form of any path has `1 + 4 * n` bytes for `n`
/// components.
pub proof fn lemma_path_round_trip(c: Seq<u32>)
    ensures
        path_wire(c).len() == 1 + 4 * c.len(),
        c.len() <= 255 ==> parse_path(path_wire(c)) == Some(c),
{
    lemma_components_wire_len(c);
    if c.len() <= 255 {
        let w = path_wire(c);
        let parsed = parse_path(w).unwrap();
        assert(w[0] == c.len());
        assert forall|i: int| 0 <= i < c.len() implies parsed[i] == c[i] by {
            lemma_components_wire(c, i);
            assert(w.subrange(1 + 4 * i, 5 + 4 * i) =~= components_wire(c).subrange(
                4 * i,
                4 * i + 4,
            ));
            lemma_u32_le_round_trip(c[i]);
        }
        assert(parsed =~= c);
    }
}

/// The display form of the components: `/`, the component without its
/// hardened bit, and `'` where it is hardened, for each in turn.
pub open spec fn components_text(c: Seq<u32>) -> Seq<char>
    decreases c.len(),
{
    if c.len() == 0 {
        Seq::empty()
    } else {
        components_text(c.drop_last()) + seq!['/'] + decimal(
            if is_hardened(c.last()) {
                (c.last() - 0x8000_0000) as nat
            } else {
                c.last() as nat
            },
        ) + if is_hardened(c.last()) {
            seq!['\'']
        } else {
            Seq::empty()
        }
    }
}

/// The display form of a path: `m/44'/4218'/0'/0'/0'`.
pub open spec fn path_text(c: Seq<u32>) -> Seq<char> {
    seq!['m'] + components_text(c)
}

/// A derivation path for IOTA addresses: `44'/4218'/...` on the main
/// network, `44'/1'/...` on a test network, all components hardened.
#[derive(Debug, PartialEq, Eq)]
pub struct Bip32Path(Vec<u32>);

impl Clone for Bip32Path {
    fn clone(&self) -> (copy: Self)
        ensures
            copy@ == self@,
    {
        proof {
            use_type_invariant(self);
        }
        let components = self.0.clone();
        assert(components@ =~= self.0@);
        Bip32Path(components)
    }
}

impl View for Bip32Path {
    type V = Seq<u32>;

    closed spec fn view(&self) -> Seq<u32> {
        self.0@
    }
}

impl Bip32Path {
    #[verifier::type_invariant]
    spec fn well_formed(self) -> bool {
        valid_path(self.0@)
    }

    fn validate(components: &Vec<u32>) -> (r: Result<(), LedgerError>)
        ensures
            match r {
                Ok(_) => valid_path(components@),
                Err(e) => !valid_path(components@) && e@ == ErrorView::InvalidPath(
                    path_fault(components@),
                ),
            },
    {
        if components.len() < 2 {
            return Err(
                LedgerError::InvalidPath("path must have at least 2 components".to_string()),
            );
        }
        if components[0] != PURPOSE {
            return Err(LedgerError::InvalidPath("first component must be 44'".to_string()));
        }
        let coin = components[1];
        if coin != COIN_MAINNET && coin != COIN_TESTNET {
            return Err(
                LedgerError::InvalidPath(
                    "coin type must be 4218' (mainnet) or 1' (testnet)".to_string(),
                ),
            );
        }
        let mut i: usize = 0;
        while i < components.len()
            invariant
                i <= components@.len(),
                components@.len() >= 2,
                components@[0] == 0x8000_002C,
                components@[1] == 0x8000_107A || components@[1] == 0x8000_0001,
                forall|j: int| 0 <= j < i ==> is_hardened(#[trigger] components@[j]),
            decreases components@.len() - i,
        {
            if components[i] < HARDENED {
                proof {
                    lemma_first_unhardened(components@, i as int);
                }
                let mut msg = "component ".to_string();
                push_decimal(&mut msg, i as u64);
                msg.append(" must be hardened");
                assert(!is_hardened(components@[i as int]));
                assert(msg@ =~= path_fault(components@));
                return Err(LedgerError::InvalidPath(msg));
            }
            i = i + 1;
        }
        Ok(())
    }

    /// A path from its components, each with the hardened bit already set.
    /// Fails exactly when the components are not a valid path.
    pub fn new(components: Vec<u32>) -> (r: Result<Bip32Path, LedgerError>)
        ensures
            match r {
                Ok(path) => valid_path(components@) && path@ == components@,
                Err(e) => !valid_path(components@) && e@ == ErrorView::InvalidPath(
                    path_fault(components@),
                ),
            },
    {
        match Bip32Path::validate(&components) {
            Ok(_) => Ok(Bip32Path(components)),
            Err(e) => Err(e),
        }
    }

    /// Main network: `44'/4218'/account'/change'/index'`.
    #[must_use]
    pub fn iota(account: u32, change: u32, index: u32) -> (path: Bip32Path)
        ensures
            path@ == seq![
                0x8000_002Cu32,
                0x8000_107Au32,
                account | 0x8000_0000u32,
                change | 0x8000_0000u32,
                index | 0x8000_0000u32,
            ],
    {
        Bip32Path::five(COIN_MAINNET, account, change, index)
    }

    /// Test network: `44'/1'/account'/change'/index'`.
    #[must_use]
    pub fn testnet(account: u32, change: u32, index: u32) -> (path: Bip32Path)
        ensures
            path@ == seq![
                0x8000_002Cu32,
                0x8000_0001u32,
                account | 0x8000_0000u32,
                change | 0x8000_0000u32,
                index | 0x8000_0000u32,
            ],
    {
        Bip32Path::five(COIN_TESTNET, account, change, index)
    }

    fn five(coin: u32, account: u32, change: u32, index: u32) -> (path: Bip32Path)
        requires
            coin == 0x8000_107A || coin == 0x8000_0001,
        ensures
            path@ == seq![
                0x8000_002Cu32,
                coin,
                account | 0x8000_0000u32,
                change | 0x8000_0000u32,
                index | 0x8000_0000u32,
            ],
    {
        let a = account | HARDENED;
        let c = change | HARDENED;
        let i = index | HARDENED;
        proof {
            assert(account | 0x8000_0000u32 >= 0x8000_0000u32) by (bit_vector);
            assert(change | 0x8000_0000u32 >= 0x8000_0000u32) by (bit_vector);
            assert(index | 0x8000_0000u32 >= 0x8000_0000u32) by (bit_vector);
        }
        let mut components: Vec<u32> = Vec::new();
        components.push(PURPOSE);
        components.push(coin);
        components.push(a);
        components.push(c);
        components.push(i);
        assert(components@ =~= seq![0x8000_002Cu32, coin, a, c, i]);
        Bip32Path(components)
    }

    /// Wire format: `[n: u8][path[0]: u32 LE]...[path[n-1]: u32 LE]`.
    pub fn serialize(&self) -> (buf: Vec<u8>)
        ensures
            buf@ == path_wire(self@),
            buf@.len() == 1 + 4 * self@.len(),
            self@.len() <= 255 ==> parse_path(buf@) == Some(self@),
    {
        let mut buf: Vec<u8> = Vec::new();
        buf.push((self.0.len() % 256) as u8);
        let ghost head = buf@;
        let mut i: usize = 0;
        while i < self.0.len()
            invariant
                i <= self.0@.len(),
                head == seq![(self.0@.len() % 256) as u8],
                buf@ == head + components_wire(self.0@.take(i as int)),
            decreases self.0@.len() - i,
        {
            write_u32_le(&mut buf, self.0[i]);
            proof {
                assert(self.0@.take(i as int + 1).drop_last() =~= self.0@.take(i as int));
                assert(self.0@.take(i as int + 1).last() == self.0@[i as int]);
                assert(buf@ =~= head + components_wire(self.0@.take(i as int + 1)));
            }
            i = i + 1;
        }
        proof {
            assert(self.0@.take(self.0@.len() as int) =~= self.0@);
            lemma_path_round_trip(self.0@);
        }
        buf
    }

    /// Reads a path back from its wire form. Fails where the bytes are not
    /// a count followed by that many components, or where the components
    /// are not a valid path.
    pub fn deserialize(bytes: &[u8]) -> (r: Result<Bip32Path, LedgerError>)
        ensures
            match r {
                Ok(path) => parse_path(bytes@) == Some(path@) && valid_path(path@),
                Err(e) => e@ == ErrorView::InvalidPath(wire_fault(bytes@)) && match parse_path(
                    bytes@,
                ) {
                    Some(c) => !valid_path(c),
                    None => true,
                },
            },
    {
        if bytes.len() < 1 {
            return Err(LedgerError::InvalidPath("path is empty".to_string()));
        }
        let count: usize = bytes[0] as usize;
        if bytes.len() - 1 != 4 * count {
            return Err(LedgerError::InvalidPath("path length does not match its count".to_string()));
        }
        let mut components: Vec<u32> = Vec::new();
        let mut i: usize = 0;
        while i < count
            invariant
                i <= count,
                count == bytes@[0],
                bytes@.len() == 1 + 4 * count,
                components@.len() == i,
                forall|j: int|
                    0 <= j < i ==> components@[j] == le_value(
                        bytes@.subrange(1 + 4 * j, 5 + 4 * j),
                    ) as u32,
            decreases count - i,
        {
            let c = read_u32_le(bytes, 1 + 4 * i);
            components.push(c);
            i = i + 1;
        }
        assert(components@ =~= parse_path(bytes@).unwrap());
        Bip32Path::new(components)
    }

    /// The components, in order. They are a valid path.
    pub fn components(&self) -> (c: &[u32])
        ensures
            c@ == self@,
            valid_path(c@),
    {
        proof {
            use_type_invariant(self);
        }
        self.0.as_slice()
    }

    /// The display form: `m`, then `/`, the number and `'` for each
    /// component.
    pub fn to_string(&self) -> (s: String)
        ensures
            s@ == path_text(self@),
    {
        let mut s = "m".to_string();
        proof {
            reveal_strlit("m");
            reveal_strlit("/");
            reveal_strlit("'");
        }
        assert(s@ =~= seq!['m']);
        let mut i: usize = 0;
        while i < self.0.len()
            invariant
                i <= self.0@.len(),
                s@ == seq!['m'] + components_text(self.0@.take(i as int)),
                "/"@ == seq!['/'],
                "'"@ == seq!['\''],
            decreases self.0@.len() - i,
        {
            let c = self.0[i];
            let ghost before = s@;
            s.append("/");
            if c >= HARDENED {
                push_decimal(&mut s, (c - HARDENED) as u64);
                s.append("'");
            } else {
                push_decimal(&mut s, c as u64);
            }
            proof {
                assert(self.0@.take(i as int + 1).drop_last() =~= self.0@.take(i as int));
                assert(self.0@.take(i as int + 1).last() == c);
                assert(s@ =~= seq!['m'] + components_text(self.0@.take(i as int + 1)));
            }
            i = i + 1;
        }
        assert(self.0@.take(self.0@.len() as int) =~= self.0@);
        s
    }
}

/// The version and the name the application reports.
#[derive(Debug, Clone, PartialEq, Eq)]
pub struct AppVersion {
    pub major: u8,
    pub minor: u8,
    pub patch: u8,
    pub name: String,
}

/// The display form of a version: `iota v1.2.3`.
pub open spec fn version_text(name: Seq<char>, major: u8, minor: u8, patch: u8) -> Seq<char> {
    name + seq![' ', 'v'] + decimal(major as nat) + seq!['.'] + decimal(minor as nat) + seq!['.']
        + decimal(patch as nat)
}

impl AppVersion {
    /// The display form: name, ` v`, and the three numbers with dots
    /// between them.
    pub fn to_string(&self) -> (s: String)
        ensures
            s@ == version_text(self.name@, self.major, self.minor, self.patch),
    {
        proof {
            reveal_strlit(" v");
            reveal_strlit(".");
        }
        let mut s = self.name.clone();
        s.append(" v");
        push_decimal(&mut s, self.major as u64);
        s.append(".");
        push_decimal(&mut s, self.minor as u64);
        s.append(".");
        push_decimal(&mut s, self.patch as u64);
        assert(s@ =~= version_text(self.name@, self.major, self.minor, self.patch));
        s
    }
}

/// 32-byte Ed25519 public key.
#[derive(Debug, Clone, PartialEq, Eq)]
pub struct PublicKey(pub [u8; 32]);

/// 32-byte Blake2b-256 address.
#[derive(Debug, Clone, PartialEq, Eq)]
pub struct Address(pub [u8; 32]);

/// 64-byte Ed25519 signature.
#[derive(Debug, Clone, PartialEq, Eq)]
pub struct Signature(pub [u8; 64]);

impl PublicKey {
    /// The bytes of the key.
    pub fn as_ref(&self) -> (bytes: &[u8])
        ensures
            bytes@ == self.0@,
    {
        self.0.as_slice()
    }

    /// The key in lower-case hexadecimal.
    pub fn to_string(&self) -> (s: String)
        ensures
            s@ == lower_hex(self.0@),
    {
        hex_encode(self.0.as_slice())
    }
}

impl Address {
    /// The bytes of the address.
    pub fn as_ref(&self) -> (bytes: &[u8])
        ensures
            bytes@ == self.0@,
    {
        self.0.as_slice()
    }

    /// The address in lower-case hexadecimal, behind `0x`.
    pub fn to_string(&self) -> (s: String)
        ensures
            s@ == seq!['0', 'x'] + lower_hex(self.0@),
    {
        proof {
            reveal_strlit("0x");
        }
        let s = "0x".to_string().concat(hex_encode(self.0.as_slice()).as_str());
        assert(s@ =~= seq!['0', 'x'] + lower_hex(self.0@));
        s
    }
}

impl Signature {
    /// The bytes of the signature.
    pub fn as_ref(&self) -> (bytes: &[u8])
        ensures
            bytes@ == self.0@,
    {
        self.0.as_slice()
    }

    /// The signature in lower-case hexadecimal.
    pub fn to_string(&self) -> (s: String)
        ensures
            s@ == lower_hex(self.0@),
    {
        hex_encode(self.0.as_slice())
    }
}

} // verus!
