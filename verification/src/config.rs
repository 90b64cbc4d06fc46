//! Configuration strings: the payload of a configuration option.
//!
//! On the wire the payload is a run of strings, each behind one byte
//! that holds its length, closed by a zero byte. A string is a key, or
//! a key, `=` and a value. Keys may repeat; the order is kept.

use crate::buffer::put_bytes;
use crate::buffer::splice;
use crate::buffer::window_mut;
use crate::error::ConfigError;
use vstd::prelude::*;
use vstd::string::*;
use vstd::utf8::*;

verus! {

/// The byte of `=`, which parts a key from its value.
pub const EQUALS: u8 = 0x3D;

/// Whether a byte may stand in a key: printable ASCII other than `=`.
pub open spec fn is_key_byte(b: u8) -> bool {
    0x20 <= b <= 0x7E && b != EQUALS
}

/// Whether a byte is a space or a tab.
pub open spec fn is_blank(b: u8) -> bool {
    b == 0x20 || b == 0x09
}

/// Whether the bytes form a key: at least one byte, every byte
/// printable ASCII other than `=`, and not all of them blank.
pub open spec fn valid_key(k: Seq<u8>) -> bool {
    &&& k.len() > 0
    &&& forall|i: int| 0 <= i < k.len() ==> is_key_byte(#[trigger] k[i])
    &&& exists|i: int| 0 <= i < k.len() && !is_blank(#[trigger] k[i])
}

/// The index of the first `=` at or behind `from`, or the length of
/// the bytes where there is none.
pub open spec fn first_equals(b: Seq<u8>, from: int) -> int
    decreases b.len() - from,
{
    if from < 0 || from >= b.len() {
        b.len() as int
    } else if b[from] == EQUALS {
        from
    } else {
        first_equals(b, from + 1)
    }
}

/// A configuration entry as a value: a key, and a value that is
/// absent, empty or not.
pub struct ConfigEntryView {
    /// The key.
    pub key: Seq<char>,
    /// The value; `None` for a flag.
    pub value: Option<Seq<char>>,
}

impl ConfigEntryView {
    /// The string of the entry on the wire, without its length byte.
    pub open spec fn wire_bytes(self) -> Seq<u8> {
        match self.value {
            None => encode_utf8(self.key),
            Some(v) => encode_utf8(self.key) + seq![EQUALS] + encode_utf8(v),
        }
    }

    /// Length of the string on the wire.
    pub open spec fn wire_size(self) -> nat {
        self.wire_bytes().len()
    }

    /// Whether the key of the entry is a key.
    pub open spec fn valid(self) -> bool {
        valid_key(encode_utf8(self.key))
    }

    /// The entry with its length byte in front.
    pub open spec fn frame(self) -> Seq<u8> {
        seq![self.wire_size() as u8] + self.wire_bytes()
    }
}

/// What the bytes of one string say: the entry, or why there is none.
/// The key ends at the first `=`; what follows it is the value.
pub open spec fn entry_of(b: Seq<u8>) -> Result<ConfigEntryView, ConfigError>
    recommends
        valid_utf8(b),
{
    if b.len() == 0 {
        Err(ConfigError::InvalidKey)
    } else if b[0] == EQUALS {
        Err(ConfigError::KeyStartsWithEquals)
    } else {
        let eq = first_equals(b, 0);
        let key = b.subrange(0, eq);
        if !valid_key(key) {
            Err(ConfigError::InvalidKey)
        } else if eq < b.len() {
            Ok(
                ConfigEntryView {
                    key: decode_utf8(key),
                    value: Some(decode_utf8(b.subrange(eq + 1, b.len() as int))),
                },
            )
        } else {
            Ok(ConfigEntryView { key: decode_utf8(key), value: None })
        }
    }
}

/// A configuration entry: a key and, unless it is a flag, a value.
/// Both are borrowed.
#[derive(Debug, Clone, Copy, PartialEq, Eq)]
pub struct ConfigEntry<'a> {
    key: &'a str,
    value: Option<&'a str>,
}

impl<'a> View for ConfigEntry<'a> {
    type V = ConfigEntryView;

    /// The key and the value as sequences of characters.
    closed spec fn view(&self) -> ConfigEntryView {
        ConfigEntryView {
            key: self.key@,
            value: match self.value {
                Some(v) => Some(v@),
                None => None,
            },
        }
    }
}

/// The result of a fallible step, with the entry replaced by its view.
pub open spec fn result_view<'a>(r: Result<ConfigEntry<'a>, ConfigError>) -> Result<
    ConfigEntryView,
    ConfigError,
> {
    match r {
        Ok(e) => Ok(e@),
        Err(err) => Err(err),
    }
}

/// The characters of an optional string.
pub open spec fn option_chars(value: Option<&str>) -> Option<Seq<char>> {
    match value {
        Some(v) => Some(v@),
        None => None,
    }
}

impl<'a> ConfigEntry<'a> {
    /// The key of an entry is a key.
    #[verifier::type_invariant]
    closed spec fn key_is_valid(&self) -> bool {
        valid_key(self.key.spec_bytes())
    }

    /// An entry with the given key and value; fails when the key is
    /// not a key.
    pub fn new(key: &'a str, value: Option<&'a str>) -> (r: Result<Self, ConfigError>)
        ensures
            r is Ok <==> valid_key(key.spec_bytes()),
            r matches Ok(e) ==> e@ == (ConfigEntryView { key: key@, value: option_chars(value) }),
            r matches Err(err) ==> err == ConfigError::InvalidKey,
    {
        match Self::validate_key(key) {
            Ok(()) => {},
            Err(err) => {
                return Err(err);
            },
        }
        Ok(ConfigEntry { key, value })
    }

    /// A flag: an entry without a value.
    pub fn flag(key: &'a str) -> (r: Result<Self, ConfigError>)
        ensures
            r is Ok <==> valid_key(key.spec_bytes()),
            r matches Ok(e) ==> e@ == (ConfigEntryView { key: key@, value: None }),
            r matches Err(err) ==> err == ConfigError::InvalidKey,
    {
        Self::new(key, None)
    }

    /// An entry with a value, which may be empty.
    pub fn with_value(key: &'a str, value: &'a str) -> (r: Result<Self, ConfigError>)
        ensures
            r is Ok <==> valid_key(key.spec_bytes()),
            r matches Ok(e) ==> e@ == (ConfigEntryView { key: key@, value: Some(value@) }),
            r matches Err(err) ==> err == ConfigError::InvalidKey,
    {
        Self::new(key, Some(value))
    }

    /// The key, which is a key.
    pub fn key(&self) -> (k: &'a str)
        ensures
            k@ == self@.key,
            self@.valid(),
    {
        proof {
            use_type_invariant(self);
        }
        self.key
    }

    /// The value: `None` for a flag.
    pub fn value(&self) -> (v: Option<&'a str>)
        ensures
            option_chars(v) == self@.value,
    {
        self.value
    }

    /// Whether the entry is a flag.
    pub fn is_flag(&self) -> (r: bool)
        ensures
            r == (self@.value is None),
    {
        self.value.is_none()
    }

    /// Reads an entry from one string: the key up to the first `=`, the
    /// value behind it. A string without `=` is a flag.
    pub fn from_str(s: &'a str) -> (r: Result<Self, ConfigError>)
        ensures
            result_view(r) == entry_of(s.spec_bytes()),
    {
        let bytes = s.as_bytes();
        let n: usize = bytes.len();
        if n == 0 {
            return Err(ConfigError::InvalidKey);
        }
        if bytes[0] == EQUALS {
            return Err(ConfigError::KeyStartsWithEquals);
        }
        let mut eq_pos: usize = 0;
        while eq_pos < n && bytes[eq_pos] != EQUALS
            invariant
                n == bytes@.len(),
                eq_pos <= n,
                first_equals(bytes@, 0) == first_equals(bytes@, eq_pos as int),
            decreases n - eq_pos,
        {
            eq_pos = eq_pos + 1;
        }
        proof {
            encode_utf8_valid_utf8(s@);
        }
        if eq_pos < n {
            proof {
                lemma_equals_is_boundary(bytes@, eq_pos as int);
            }
            let (key, rest) = s.split_at(eq_pos);
            proof {
                encode_utf8_valid_utf8(rest@);
                lemma_boundary_behind_equals(rest.spec_bytes());
            }
            let (_, value) = rest.split_at(1);
            proof {
                encode_utf8_decode_utf8(key@);
                encode_utf8_decode_utf8(value@);
                assert(value.spec_bytes() =~= bytes@.subrange(eq_pos + 1, n as int));
            }
            match Self::validate_key(key) {
                Ok(()) => {},
                Err(err) => {
                    return Err(err);
                },
            }
            Ok(ConfigEntry { key, value: Some(value) })
        } else {
            proof {
                assert(bytes@.subrange(0, n as int) =~= bytes@);
                encode_utf8_decode_utf8(s@);
            }
            match Self::validate_key(s) {
                Ok(()) => {},
                Err(err) => {
                    return Err(err);
                },
            }
            Ok(ConfigEntry { key: s, value: None })
        }
    }

    /// Succeeds exactly when the bytes of `key` form a key.
    fn validate_key(key: &str) -> (r: Result<(), ConfigError>)
        ensures
            r is Ok <==> valid_key(key.spec_bytes()),
            r matches Err(err) ==> err == ConfigError::InvalidKey,
    {
        let bytes = key.as_bytes();
        let n: usize = bytes.len();
        if n == 0 {
            return Err(ConfigError::InvalidKey);
        }
        let mut has_non_whitespace = false;
        let mut i: usize = 0;
        while i < n
            invariant
                n == bytes@.len(),
                bytes@ == key.spec_bytes(),
                i <= n,
                forall|j: int| 0 <= j < i ==> is_key_byte(#[trigger] bytes@[j]),
                has_non_whitespace <==> exists|j: int| 0 <= j < i && !is_blank(#[trigger] bytes@[j]),
            decreases n - i,
        {
            let byte: u8 = bytes[i];
            if byte < 0x20 || byte > 0x7E || byte == EQUALS {
                proof {
                    assert(!is_key_byte(bytes@[i as int]));
                }
                return Err(ConfigError::InvalidKey);
            }
            if byte != 0x20 && byte != 0x09 {
                has_non_whitespace = true;
            }
            i = i + 1;
        }
        if !has_non_whitespace {
            return Err(ConfigError::InvalidKey);
        }
        Ok(())
    }

    /// Writes the string of the entry, without its length byte, to the
    /// front of `buf`, and returns its length. Fails, and leaves `buf`
    /// as it was, when `buf` is too short for it.
    pub fn write_to(&self, buf: &mut [u8]) -> (r: Result<usize, ConfigError>)
        ensures
            r is Ok <==> self@.wire_size() <= old(buf)@.len(),
            r matches Ok(n) ==> n == self@.wire_size() && final(buf)@ == splice(
                old(buf)@,
                0,
                self@.wire_bytes(),
            ),
            r matches Err(err) ==> err == ConfigError::BufferTooSmall && final(buf)@ == old(buf)@,
    {
        let key_bytes = self.key.as_bytes();
        let cap: usize = buf.len();
        let needed: usize = match self.checked_wire_size() {
            Some(n) => n,
            None => {
                return Err(ConfigError::BufferTooSmall);
            },
        };
        if cap < needed {
            return Err(ConfigError::BufferTooSmall);
        }
        let mut pos: usize = 0;
        put_bytes(buf, pos, key_bytes);
        pos = pos + key_bytes.len();
        match self.value {
            Some(val) => {
                buf[pos] = EQUALS;
                pos = pos + 1;
                let val_bytes = val.as_bytes();
                put_bytes(buf, pos, val_bytes);
                pos = pos + val_bytes.len();
                proof {
                    assert(buf@ =~= splice(old(buf)@, 0, self@.wire_bytes()));
                }
            },
            None => {
                proof {
                    assert(buf@ =~= splice(old(buf)@, 0, self@.wire_bytes()));
                }
            },
        }
        Ok(pos)
    }

    /// Length of the string of the entry on the wire, without its
    /// length byte.
    pub fn wire_size(&self) -> (n: usize)
        requires
            self@.wire_size() <= usize::MAX,
        ensures
            n == self@.wire_size(),
    {
        match self.value {
            None => self.key.len(),
            Some(v) => self.key.len() + 1 + v.len(),
        }
    }

    /// The same length, or `None` where it does not fit a `usize`.
    fn checked_wire_size(&self) -> (r: Option<usize>)
        ensures
            r is Some <==> self@.wire_size() <= usize::MAX,
            r matches Some(n) ==> n == self@.wire_size(),
    {
        let key_len: usize = self.key.as_bytes().len();
        match self.value {
            None => Some(key_len),
            Some(v) => {
                let value_len: usize = v.as_bytes().len();
                match key_len.checked_add(1) {
                    Some(k) => k.checked_add(value_len),
                    None => None,
                }
            },
        }
    }
}

/// In valid UTF-8 an `=` starts a character.
proof fn lemma_equals_is_boundary(b: Seq<u8>, at: int)
    requires
        valid_utf8(b),
        0 <= at < b.len(),
        b[at] == EQUALS,
    ensures
        is_char_boundary(b, at),
{
    is_char_boundary_iff_not_is_continuation_byte(b, at);
}

/// In valid UTF-8 that starts with `=`, the second byte starts a
/// character or ends the bytes.
proof fn lemma_boundary_behind_equals(b: Seq<u8>)
    requires
        valid_utf8(b),
        b.len() >= 1,
        b[0] == EQUALS,
    ensures
        is_char_boundary(b, 1),
{
    reveal_with_fuel(is_char_boundary, 2);
    reveal_with_fuel(valid_utf8, 2);
}

/// One step of reading configuration strings from `data` at `pos`:
/// what the step yields, and where the next step starts. `None` is
/// the terminator; an error ends the sequence.
pub open spec fn step(data: Seq<u8>, pos: int) -> (Option<Result<ConfigEntryView, ConfigError>>, int)
    recommends
        0 <= pos <= data.len(),
{
    if pos >= data.len() {
        (Some(Err(ConfigError::UnexpectedEnd)), pos)
    } else {
        let length = data[pos] as int;
        if length == 0 {
            (None, pos + 1)
        } else if pos + 1 + length > data.len() {
            (Some(Err(ConfigError::LengthOverflow)), pos + 1)
        } else {
            let string = data.subrange(pos + 1, pos + 1 + length);
            if !valid_utf8(string) {
                (Some(Err(ConfigError::InvalidUtf8)), pos + 1)
            } else {
                (Some(entry_of(string)), pos + 1 + length)
            }
        }
    }
}

/// All the entries from `pos` up to the terminator, or the first
/// error on the way.
pub open spec fn entries_from(data: Seq<u8>, pos: int) -> Result<Seq<ConfigEntryView>, ConfigError>
    decreases data.len() - pos,
{
    if pos < 0 || pos >= data.len() {
        Err(ConfigError::UnexpectedEnd)
    } else {
        match step(data, pos).0 {
            None => Ok(Seq::empty()),
            Some(Err(err)) => Err(err),
            Some(Ok(entry)) => match entries_from(data, pos + 1 + data[pos] as int) {
                Ok(rest) => Ok(seq![entry] + rest),
                Err(err) => Err(err),
            },
        }
    }
}

/// What one step yielded, with the entry replaced by its view.
pub open spec fn item_view<'a>(item: Option<Result<ConfigEntry<'a>, ConfigError>>) -> Option<
    Result<ConfigEntryView, ConfigError>,
> {
    match item {
        Some(r) => Some(result_view(r)),
        None => None,
    }
}

/// The views of a sequence of entries.
pub open spec fn views<'a>(entries: Seq<ConfigEntry<'a>>) -> Seq<ConfigEntryView> {
    entries.map_values(|e: ConfigEntry<'a>| e@)
}

/// A cursor over configuration strings: it yields one entry a step,
/// in order, until the terminator or the first error.
pub struct ConfigEntryIter<'a> {
    data: &'a [u8],
    pos: usize,
}

impl<'a> ConfigEntryIter<'a> {
    /// The bytes the cursor reads.
    pub closed spec fn data(&self) -> Seq<u8> {
        self.data@
    }

    /// Where the next step starts.
    pub closed spec fn position(&self) -> int {
        self.pos as int
    }

    /// The cursor stands inside its data or at their end.
    #[verifier::type_invariant]
    closed spec fn in_bounds(&self) -> bool {
        self.pos <= self.data@.len()
    }

    /// A cursor at the start of `data`.
    pub fn new(data: &'a [u8]) -> (it: Self)
        ensures
            it.data() == data@,
            it.position() == 0,
    {
        ConfigEntryIter { data, pos: 0 }
    }

    /// One step: the next entry, an error, or `None` at the
    /// terminator. After an error or the terminator the sequence is
    /// over; a further step reads on from where the cursor stands.
    pub fn next(&mut self) -> (item: Option<Result<ConfigEntry<'a>, ConfigError>>)
        ensures
            final(self).data() == old(self).data(),
            0 <= old(self).position() <= final(self).position() <= final(self).data().len(),
            (item_view(item), final(self).position()) == step(old(self).data(), old(self).position()),
    {
        proof {
            use_type_invariant(&*self);
        }
        let total: usize = self.data.len();
        if self.pos >= total {
            return Some(Err(ConfigError::UnexpectedEnd));
        }
        let length: usize = self.data[self.pos] as usize;
        self.pos = self.pos + 1;
        if length == 0 {
            return None;
        }
        if length > total - self.pos {
            return Some(Err(ConfigError::LengthOverflow));
        }
        let string_bytes = &self.data[self.pos..self.pos + length];
        let string = match str_from_utf8(string_bytes) {
            Some(s) => s,
            None => {
                return Some(Err(ConfigError::InvalidUtf8));
            },
        };
        self.pos = self.pos + length;
        Some(ConfigEntry::from_str(string))
    }

    /// All the entries up to the terminator, in order, or the first
    /// error on the way.
    pub fn collect(self) -> (r: Result<Vec<ConfigEntry<'a>>, ConfigError>)
        ensures
            match r {
                Ok(entries) => entries_from(self.data(), self.position()) == Ok::<
                    Seq<ConfigEntryView>,
                    ConfigError,
                >(views(entries@)),
                Err(err) => entries_from(self.data(), self.position()) == Err::<
                    Seq<ConfigEntryView>,
                    ConfigError,
                >(err),
            },
    {
        let mut it = self;
        let mut out: Vec<ConfigEntry<'a>> = Vec::new();
        let ghost start = self.position();
        let ghost data = self.data();
        proof {
            use_type_invariant(&it);
            assert(views(out@) =~= Seq::<ConfigEntryView>::empty());
        }
        loop
            invariant
                data == self.data(),
                start == self.position(),
                it.data() == data,
                0 <= start <= it.position() <= data.len(),
                entries_from(data, start) == prepend(views(out@), entries_from(data, it.position())),
            decreases data.len() - it.position(),
        {
            let ghost before = it.position();
            let ghost so_far = views(out@);
            match it.next() {
                None => {
                    proof {
                        assert(entries_from(data, before) == Ok::<Seq<ConfigEntryView>, ConfigError>(
                            Seq::empty(),
                        ));
                        assert(so_far + Seq::<ConfigEntryView>::empty() =~= so_far);
                    }
                    return Ok(out);
                },
                Some(Err(err)) => {
                    proof {
                        assert(entries_from(data, before) == Err::<Seq<ConfigEntryView>, ConfigError>(
                            err,
                        ));
                    }
                    return Err(err);
                },
                Some(Ok(entry)) => {
                    out.push(entry);
                    proof {
                        assert(entries_from(data, before) == prepend(
                            seq![entry@],
                            entries_from(data, it.position()),
                        ));
                        assert(views(out@) =~= so_far + seq![entry@]);
                        lemma_prepend_push(so_far, entry@, entries_from(data, it.position()));
                    }
                },
            }
        }
    }
}

/// A result with `front` put before its entries.
pub open spec fn prepend(
    front: Seq<ConfigEntryView>,
    r: Result<Seq<ConfigEntryView>, ConfigError>,
) -> Result<Seq<ConfigEntryView>, ConfigError> {
    match r {
        Ok(rest) => Ok(front + rest),
        Err(err) => Err(err),
    }
}

proof fn lemma_prepend_push(
    front: Seq<ConfigEntryView>,
    entry: ConfigEntryView,
    r: Result<Seq<ConfigEntryView>, ConfigError>,
)
    ensures
        prepend(front, prepend(seq![entry], r)) == prepend(front + seq![entry], r),
{
    match r {
        Ok(rest) => {
            assert(front + (seq![entry] + rest) =~= (front + seq![entry]) + rest);
        },
        Err(_) => {},
    }
}

/// Calls `core::str::from_utf8`: the result is a string exactly when
/// the bytes are valid UTF-8, and the string then has those bytes.
#[verifier::external_body]
fn str_from_utf8<'a>(bytes: &'a [u8]) -> (r: Option<&'a str>)
    ensures
        r is Some <==> valid_utf8(bytes@),
        r matches Some(s) ==> s.spec_bytes() == bytes@,
{
    core::str::from_utf8(bytes).ok()
}

/// The entries on the wire, each behind its length byte, without the
/// terminator.
pub open spec fn frames(entries: Seq<ConfigEntryView>) -> Seq<u8>
    decreases entries.len(),
{
    if entries.len() == 0 {
        Seq::empty()
    } else {
        entries[0].frame() + frames(entries.drop_first())
    }
}

/// The entries on the wire, with the terminator.
pub open spec fn wire_image(entries: Seq<ConfigEntryView>) -> Seq<u8> {
    frames(entries) + seq![0u8]
}

/// Whether the entries can be written to a buffer of `cap` bytes: the
/// string of each fits its length byte, and the buffer takes all of
/// them and the terminator.
pub open spec fn fits(entries: Seq<ConfigEntryView>, cap: int) -> bool {
    &&& forall|i: int| 0 <= i < entries.len() ==> (#[trigger] entries[i]).wire_size() <= 255
    &&& wire_image(entries).len() <= cap
}

/// How many entries are written before the first that cannot be:
/// counting on from `k`, the index of the first entry whose string is
/// longer than 255 bytes or which the buffer cannot take behind those
/// before it; the number of entries where there is none.
pub open spec fn accepted(entries: Seq<ConfigEntryView>, cap: int, k: int) -> int
    decreases entries.len() - k,
{
    if k < 0 || k >= entries.len() {
        k
    } else if entries[k].wire_size() > 255 || frames(entries.take(k)).len() + 1
        + entries[k].wire_size() > cap {
        k
    } else {
        accepted(entries, cap, k + 1)
    }
}

/// The frames of two runs of entries, one behind the other, are the
/// frames of the runs joined.
pub proof fn lemma_frames_concat(a: Seq<ConfigEntryView>, b: Seq<ConfigEntryView>)
    ensures
        frames(a + b) == frames(a) + frames(b),
    decreases a.len(),
{
    if a.len() == 0 {
        assert(a + b =~= b);
        assert(frames(a) + frames(b) =~= frames(b));
    } else {
        lemma_frames_concat(a.drop_first(), b);
        assert((a + b).drop_first() =~= a.drop_first() + b);
        assert((a + b)[0] == a[0]);
        assert(frames(a + b) =~= frames(a) + frames(b));
    }
}

proof fn lemma_frames_take_next(entries: Seq<ConfigEntryView>, i: int)
    requires
        0 <= i < entries.len(),
    ensures
        frames(entries.take(i + 1)) == frames(entries.take(i)) + entries[i].frame(),
        frames(entries.take(i + 1)).len() == frames(entries.take(i)).len() + 1
            + entries[i].wire_size(),
{
    let one = seq![entries[i]];
    assert(entries.take(i + 1) =~= entries.take(i) + one);
    lemma_frames_concat(entries.take(i), one);
    assert(one.drop_first() =~= Seq::<ConfigEntryView>::empty());
    assert(frames(one.drop_first()) =~= Seq::<u8>::empty());
    assert(frames(one) =~= entries[i].frame());
}

proof fn lemma_frames_prefix_len(entries: Seq<ConfigEntryView>, i: int)
    requires
        0 <= i <= entries.len(),
    ensures
        frames(entries.take(i)).len() <= frames(entries).len(),
{
    assert(entries =~= entries.take(i) + entries.skip(i));
    lemma_frames_concat(entries.take(i), entries.skip(i));
}

proof fn lemma_serialize_step(
    before: Seq<u8>,
    done: Seq<u8>,
    b0: Seq<u8>,
    b1: Seq<u8>,
    b2: Seq<u8>,
    window: Seq<u8>,
    size_byte: u8,
    wire: Seq<u8>,
)
    requires
        done.len() + 1 + wire.len() <= before.len(),
        b0 == splice(before, 0, done),
        b1 == b0.update(done.len() as int, size_byte),
        window == splice(b1.subrange(done.len() as int + 1, b1.len() as int), 0, wire),
        b2 == splice(b1, done.len() as int + 1, window),
    ensures
        b2 == splice(before, 0, done + (seq![size_byte] + wire)),
{
    let pos = done.len() as int;
    let target = splice(before, 0, done + (seq![size_byte] + wire));
    assert(b2.len() == target.len());
    assert forall|i: int| 0 <= i < b2.len() implies b2[i] == target[i] by {
        if i < pos {
        } else if i == pos {
        } else if i < pos + 1 + wire.len() {
            assert(b2[i] == window[i - pos - 1]);
            assert(window[i - pos - 1] == wire[i - pos - 1]);
        } else {
            assert(b2[i] == window[i - pos - 1]);
        }
    }
    assert(b2 =~= target);
}

/// The configuration-string codec.
pub struct ConfigurationOption;

impl ConfigurationOption {
    /// A cursor over the configuration strings in `data`.
    pub fn parse<'a>(data: &'a [u8]) -> (it: ConfigEntryIter<'a>)
        ensures
            it.data() == data@,
            it.position() == 0,
    {
        ConfigEntryIter::new(data)
    }

    /// Writes the entries in order, each behind its length byte, and
    /// then the terminator, to the front of `buf`; returns the number
    /// of bytes written. Fails when the string of an entry is longer
    /// than 255 bytes or `buf` is too short; the entries in front of
    /// the one that did not fit are then written, and nothing else is.
    pub fn serialize<'a>(entries: &[ConfigEntry<'a>], buf: &mut [u8]) -> (r: Result<
        usize,
        ConfigError,
    >)
        ensures
            final(buf)@.len() == old(buf)@.len(),
            r is Ok <==> fits(views(entries@), old(buf)@.len() as int),
            r matches Ok(n) ==> n == wire_image(views(entries@)).len() && final(buf)@ == splice(
                old(buf)@,
                0,
                wire_image(views(entries@)),
            ),
            r matches Err(err) ==> err == ConfigError::BufferTooSmall && final(buf)@ == splice(
                old(buf)@,
                0,
                frames(
                    views(entries@).take(accepted(views(entries@), old(buf)@.len() as int, 0)),
                ),
            ),
            wire_image(views(entries@)).len() > old(buf)@.len() ==> r is Err,
            r is Ok ==> entries_from(final(buf)@, 0) == Ok::<Seq<ConfigEntryView>, ConfigError>(
                views(entries@),
            ),
    {
        let ghost v = views(entries@);
        let ghost before = buf@;
        let cap: usize = buf.len();
        let count: usize = entries.len();
        let mut pos: usize = 0;
        let mut i: usize = 0;
        proof {
            assert(v.take(0) =~= Seq::<ConfigEntryView>::empty());
            assert(buf@ =~= splice(before, 0, frames(v.take(0))));
        }
        while i < count
            invariant
                v == views(entries@),
                before == old(buf)@,
                count == entries@.len(),
                cap == before.len(),
                buf@.len() == cap,
                i <= count,
                pos <= cap,
                pos == frames(v.take(i as int)).len(),
                buf@ == splice(before, 0, frames(v.take(i as int))),
                forall|j: int|
                    0 <= j < i ==> (#[trigger] v[j]).wire_size() <= 255 && v[j].valid(),
                accepted(v, cap as int, 0) == accepted(v, cap as int, i as int),
            decreases count - i,
        {
            let entry = &entries[i];
            let ghost done = frames(v.take(i as int));
            let ghost b0 = buf@;
            proof {
                use_type_invariant(entry);
                assert(entry@ == v[i as int]);
                lemma_frames_take_next(v, i as int);
                lemma_frames_prefix_len(v, i as int + 1);
            }
            let entry_size: usize = match entry.checked_wire_size() {
                Some(n) => n,
                None => {
                    return Err(ConfigError::BufferTooSmall);
                },
            };
            if entry_size > 255 {
                return Err(ConfigError::BufferTooSmall);
            }
            if pos >= cap || entry_size > cap - pos - 1 {
                return Err(ConfigError::BufferTooSmall);
            }
            buf[pos] = entry_size as u8;
            let ghost b1 = buf@;
            pos = pos + 1;
            let w = window_mut(buf, pos, cap);
            let written: usize = match entry.write_to(w) {
                Ok(n) => n,
                Err(err) => {
                    return Err(err);
                },
            };
            proof {
                lemma_serialize_step(
                    before,
                    done,
                    b0,
                    b1,
                    buf@,
                    w@,
                    entry_size as u8,
                    entry@.wire_bytes(),
                );
            }
            pos = pos + written;
            i = i + 1;
        }
        proof {
            assert(v.take(count as int) =~= v);
        }
        if pos >= cap {
            return Err(ConfigError::BufferTooSmall);
        }
        buf[pos] = 0x00;
        pos = pos + 1;
        proof {
            assert(buf@ =~= splice(before, 0, wire_image(v)));
            let rest = before.subrange(pos as int, cap as int);
            assert(buf@ =~= wire_image(v) + rest);
            lemma_config_round_trip(v, rest);
        }
        Ok(pos)
    }

    /// Number of bytes the entries take on the wire, with their length
    /// bytes and the terminator.
    pub fn wire_size<'a>(entries: &[ConfigEntry<'a>]) -> (n: usize)
        requires
            wire_image(views(entries@)).len() <= usize::MAX,
        ensures
            n == wire_image(views(entries@)).len(),
    {
        let ghost v = views(entries@);
        let count: usize = entries.len();
        let mut size: usize = 1;
        let mut i: usize = 0;
        proof {
            assert(v.take(0) =~= Seq::<ConfigEntryView>::empty());
        }
        while i < count
            invariant
                v == views(entries@),
                count == entries@.len(),
                i <= count,
                size == 1 + frames(v.take(i as int)).len(),
                frames(v).len() + 1 <= usize::MAX,
            decreases count - i,
        {
            let entry = &entries[i];
            proof {
                assert(entry@ == v[i as int]);
                lemma_frames_take_next(v, i as int);
                lemma_frames_prefix_len(v, i as int + 1);
            }
            size = size + 1;
            size = size + entry.wire_size();
            i = i + 1;
        }
        proof {
            assert(v.take(count as int) =~= v);
        }
        size
    }
}

proof fn lemma_first_equals(b: Seq<u8>, from: int, at: int)
    requires
        0 <= from <= at <= b.len(),
        forall|i: int| from <= i < at ==> b[i] != EQUALS,
        at == b.len() || b[at] == EQUALS,
    ensures
        first_equals(b, from) == at,
    decreases at - from,
{
    if from < at {
        lemma_first_equals(b, from + 1, at);
    }
}

proof fn lemma_equals_alone_is_utf8()
    ensures
        valid_utf8(seq![EQUALS]),
{
    let b = seq![EQUALS];
    assert(0x3Du8 & 0x7F == 0x3D) by (bit_vector);
    assert(pop_first_scalar(b) =~= Seq::<u8>::empty());
    reveal_with_fuel(valid_utf8, 2);
}

/// The string of an entry with a valid key is valid UTF-8, is not
/// empty, and says that entry: reading what was written gives the key
/// and the value back, a flag as a flag and an empty value as an
/// empty value.
pub proof fn lemma_entry_round_trip(entry: ConfigEntryView)
    requires
        entry.valid(),
    ensures
        entry.wire_size() >= 1,
        valid_utf8(entry.wire_bytes()),
        entry_of(entry.wire_bytes()) == Ok::<ConfigEntryView, ConfigError>(entry),
{
    let key = encode_utf8(entry.key);
    let wire = entry.wire_bytes();
    encode_utf8_valid_utf8(entry.key);
    encode_utf8_decode_utf8(entry.key);
    assert forall|i: int| 0 <= i < key.len() implies wire[i] != EQUALS by {
        assert(is_key_byte(key[i]));
    }
    assert(wire[0] == key[0]);
    match entry.value {
        None => {
            lemma_first_equals(wire, 0, key.len() as int);
            assert(wire.subrange(0, key.len() as int) =~= key);
        },
        Some(v) => {
            let value = encode_utf8(v);
            encode_utf8_valid_utf8(v);
            encode_utf8_decode_utf8(v);
            lemma_equals_alone_is_utf8();
            valid_utf8_concat(key, seq![EQUALS]);
            valid_utf8_concat(key + seq![EQUALS], value);
            assert(wire[key.len() as int] == EQUALS);
            lemma_first_equals(wire, 0, key.len() as int);
            assert(wire.subrange(0, key.len() as int) =~= key);
            assert(wire.subrange(key.len() as int + 1, wire.len() as int) =~= value);
        },
    }
}

proof fn lemma_round_trip_from(
    front: Seq<u8>,
    entries: Seq<ConfigEntryView>,
    rest: Seq<u8>,
)
    requires
        forall|i: int|
            0 <= i < entries.len() ==> (#[trigger] entries[i]).valid() && entries[i].wire_size()
                <= 255,
    ensures
        entries_from(front + wire_image(entries) + rest, front.len() as int) == Ok::<
            Seq<ConfigEntryView>,
            ConfigError,
        >(entries),
    decreases entries.len(),
{
    let data = front + wire_image(entries) + rest;
    let pos = front.len() as int;
    if entries.len() == 0 {
        assert(frames(entries) =~= Seq::<u8>::empty());
        assert(data[pos] == 0u8);
        assert(step(data, pos).0 is None);
        assert(entries =~= Seq::<ConfigEntryView>::empty());
    } else {
        let head = entries[0];
        let tail = entries.drop_first();
        let wire = head.wire_bytes();
        let length = wire.len() as int;
        lemma_entry_round_trip(head);
        assert(head.valid() && head.wire_size() <= 255);
        assert(frames(entries) == head.frame() + frames(tail));
        assert(data[pos] == head.frame()[0]);
        assert(data[pos] as int == length);
        assert(pos + 1 + length <= data.len());
        assert(data.subrange(pos + 1, pos + 1 + length) =~= wire);
        assert(step(data, pos).0 == Some(entry_of(wire)));
        let next_front = front + head.frame();
        assert(next_front.len() == pos + 1 + length);
        assert(data =~= next_front + wire_image(tail) + rest);
        assert forall|i: int| 0 <= i < tail.len() implies (#[trigger] tail[i]).valid()
            && tail[i].wire_size() <= 255 by {
            assert(tail[i] == entries[i + 1]);
        }
        lemma_round_trip_from(next_front, tail, rest);
        assert(entries_from(data, pos + 1 + length) == Ok::<Seq<ConfigEntryView>, ConfigError>(
            tail,
        ));
        assert(seq![head] + tail =~= entries);
    }
}

/// Reading what was written gives the entries back: for entries with
/// valid keys whose strings fit their length bytes, the bytes that
/// `ConfigurationOption::serialize` writes parse to exactly those
/// entries, as many and in the same order, each with its key and with
/// its value absent, empty or as it was; keys may repeat. What follows
/// the terminator does not matter.
pub proof fn lemma_config_round_trip(entries: Seq<ConfigEntryView>, rest: Seq<u8>)
    requires
        forall|i: int|
            0 <= i < entries.len() ==> (#[trigger] entries[i]).valid() && entries[i].wire_size()
                <= 255,
    ensures
        entries_from(wire_image(entries) + rest, 0) == Ok::<Seq<ConfigEntryView>, ConfigError>(
            entries,
        ),
{
    lemma_round_trip_from(Seq::empty(), entries, rest);
    assert(Seq::<u8>::empty() + wire_image(entries) + rest =~= wire_image(entries) + rest);
}

proof fn lemma_accepted_from(entries: Seq<ConfigEntryView>, cap: int, k: int)
    requires
        0 <= k <= entries.len(),
        forall|i: int| 0 <= i < k ==> (#[trigger] entries[i]).wire_size() <= 255,
        frames(entries.take(k)).len() <= cap,
    ensures
        accepted(entries, cap, k) == entries.len() <==> (forall|i: int|
            0 <= i < entries.len() ==> (#[trigger] entries[i]).wire_size() <= 255) && frames(
            entries,
        ).len() <= cap,
    decreases entries.len() - k,
{
    if k == entries.len() {
        assert(entries.take(k) =~= entries);
    } else {
        lemma_frames_take_next(entries, k);
        lemma_frames_prefix_len(entries, k + 1);
        if entries[k].wire_size() > 255 || frames(entries.take(k)).len() + 1
            + entries[k].wire_size() > cap {
            assert(accepted(entries, cap, k) == k);
        } else {
            lemma_accepted_from(entries, cap, k + 1);
        }
    }
}

/// Every entry is written exactly when the string of each fits its
/// length byte and the buffer takes all of them with their length
/// bytes; the terminator then needs one byte more.
pub proof fn lemma_accepted_all(entries: Seq<ConfigEntryView>, cap: int)
    requires
        0 <= cap,
    ensures
        accepted(entries, cap, 0) == entries.len() <==> (forall|i: int|
            0 <= i < entries.len() ==> (#[trigger] entries[i]).wire_size() <= 255) && frames(
            entries,
        ).len() <= cap,
        fits(entries, cap) <==> accepted(entries, cap, 0) == entries.len() && frames(
            entries,
        ).len() < cap,
{
    assert(entries.take(0) =~= Seq::<ConfigEntryView>::empty());
    lemma_accepted_from(entries, cap, 0);
}

} // verus!
