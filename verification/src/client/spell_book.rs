//! The spells that the player has learned.
use crate::named::NamedMap;
use vstd::prelude::*;

verus! {

/// The four bytes at `at` as a number, lowest first.
pub open spec fn le32_at(s: Seq<u8>, at: int) -> u32 {
    (s[at] + s[at + 1] * 256 + s[at + 2] * 65536 + s[at + 3] * 16777216) as u32
}

pub fn read_u32(s: &[u8], at: usize) -> (r: u32)
    requires
        at + 4 <= s@.len(),
    ensures
        r == le32_at(s@, at as int),
        r == s@[at as int] + s@[at + 1] * 256 + s@[at + 2] * 65536 + s@[at + 3] * 16777216,
{
    s[at] as u32 + s[at + 1] as u32 * 256 + s[at + 2] as u32 * 65536 + s[at + 3] as u32 * 16777216
}

/// Bytes of a name that are read at most.
pub const NAME_MAX_BYTES: usize = 64;

/// Where the client keeps the handler of each spell.
pub const BYTE_TABLE_ADDR: u32 = 0x0074_04AC;

pub const BYTE_TABLE_LEN: u32 = 0xDC;

/// Where in a book the number of its spells lies.
pub const BOOK_COUNT_OFFSET: u32 = 0x2C;

/// Where in a book the address of its spells lies.
pub const BOOK_ARRAY_OFFSET: u32 = 0x58;

/// A book with more spells has been misread.
pub const MAX_SPELLS: u32 = 1024;

/// Bytes of a spell that are read.
pub const ENTRY_BYTES: usize = 16;

/// The handlers of spells that attack.
pub const ATTACK_HANDLER_WHITELIST: [u8; 36] = [
    0x02,
    0x05,
    0x06,
    0x08,
    0x09,
    0x0C,
    0x0D,
    0x0E,
    0x0F,
    0x10,
    0x11,
    0x12,
    0x13,
    0x15,
    0x16,
    0x18,
    0x1A,
    0x1D,
    0x24,
    0x26,
    0x28,
    0x29,
    0x2A,
    0x2D,
    0x2E,
    0x2F,
    0x31,
    0x32,
    0x33,
    0x34,
    0x35,
    0x37,
    0x38,
    0x3A,
    0x3B,
    0x3C,
];

/// What is known of a spell.
#[derive(Debug, Clone, Copy, PartialEq, Eq, Structural)]
pub struct SpellEntry {
    /// The id under which the spell is cast.
    pub packed: u32,
    /// Reach in tiles, 0 for a spell on oneself.
    pub range: u32,
    /// The client's handler for the spell.
    pub dispatcher_byte: u8,
}

impl Default for SpellEntry {
    fn default() -> (r: Self)
        ensures
            r == (SpellEntry { packed: 0, range: 0, dispatcher_byte: 0 }),
    {
        SpellEntry { packed: 0, range: 0, dispatcher_byte: 0 }
    }
}

impl SpellEntry {
    pub open spec fn attacks(self) -> bool {
        ATTACK_HANDLER_WHITELIST@.contains(self.dispatcher_byte)
    }

    /// Whether the client handles the spell as an attack.
    pub fn is_attack(&self) -> (r: bool)
        ensures
            r == self.attacks(),
    {
        let list: [u8; 36] = ATTACK_HANDLER_WHITELIST;
        let mut i: usize = 0;
        while i < 36
            invariant
                i <= 36,
                list@ == ATTACK_HANDLER_WHITELIST@,
                list@.len() == 36,
                forall|j: int| 0 <= j < i ==> #[trigger] list@[j] != self.dispatcher_byte,
            decreases 36 - i,
        {
            if list[i] == self.dispatcher_byte {
                assert(list@[i as int] == self.dispatcher_byte);
                return true;
            }
            i = i + 1;
        }
        false
    }
}

/// The spells that the player has learned, by name.
#[derive(Debug)]
pub struct SpellBook {
    pub map: NamedMap<SpellEntry>,
    /// Where the book was found. Another character has another book.
    pub book_ptr: u32,
}

impl Clone for SpellBook {
    fn clone(&self) -> (r: Self)
        ensures
            r.map@ == self.map@,
            r.map.name_seq() == self.map.name_seq(),
            r.book_ptr == self.book_ptr,
    {
        SpellBook { map: self.map.clone(), book_ptr: self.book_ptr }
    }
}

impl Default for SpellBook {
    fn default() -> (r: Self)
        ensures
            r.map@ == Map::<Seq<char>, SpellEntry>::empty(),
            r.book_ptr == 0,
    {
        SpellBook { map: NamedMap::new(), book_ptr: 0 }
    }
}

/// What was read of one spell.
#[derive(Debug)]
pub struct RawSpell {
    /// The address in the book's list.
    pub entry_ptr: u32,
    /// What lies there.
    pub entry_bytes: Option<Vec<u8>>,
    /// What lies where the name should be.
    pub raw_name: Option<Vec<u8>>,
    /// The bytes of the name before the first zero, as text and without the
    /// part in brackets.
    pub base_name: String,
    /// The reach, from the part in brackets.
    pub range: Option<u32>,
}

/// Why there is no book.
#[derive(Debug, Clone, Copy, PartialEq, Eq, Structural)]
pub enum BookError {
    /// The client has no book; the player is probably not in the world.
    NullBook,
    /// The book holds nothing.
    Empty { count: u32, array_ptr: u32 },
    /// The book has been misread.
    TooMany { count: u32 },
}

/// Whether a book can be read.
pub fn check_book(book_ptr: u32, count: u32, array_ptr: u32) -> (r: Result<(), BookError>)
    ensures
        r == book_checked(book_ptr, count, array_ptr),
{
    if book_ptr == 0 {
        return Err(BookError::NullBook);
    }
    if count == 0 || array_ptr == 0 {
        return Err(BookError::Empty { count, array_ptr });
    }
    if count > MAX_SPELLS {
        return Err(BookError::TooMany { count });
    }
    Ok(())
}

pub open spec fn book_checked(book_ptr: u32, count: u32, array_ptr: u32) -> Result<(), BookError> {
    if book_ptr == 0 {
        Err(BookError::NullBook)
    } else if count == 0 || array_ptr == 0 {
        Err(BookError::Empty { count, array_ptr })
    } else if count > MAX_SPELLS {
        Err(BookError::TooMany { count })
    } else {
        Ok(())
    }
}

/// The address at a position of the book's list, 0 where the list ends before.
pub fn entry_pointer(array_bytes: &[u8], i: usize) -> (r: u32)
    requires
        i < MAX_SPELLS,
    ensures
        r == (if i * 4 + 4 <= array_bytes@.len() {
            le32_at(array_bytes@, i * 4)
        } else {
            0
        }),
{
    if i * 4 + 4 <= array_bytes.len() {
        read_u32(array_bytes, i * 4)
    } else {
        0
    }
}

/// The address of a spell's name, 0 where it is unknown.
pub fn name_pointer(entry_bytes: &[u8]) -> (r: u32)
    ensures
        r == name_address(entry_bytes@),
{
    if entry_bytes.len() >= ENTRY_BYTES {
        read_u32(entry_bytes, 12)
    } else {
        0
    }
}

pub open spec fn name_address(entry: Seq<u8>) -> u32 {
    if entry.len() >= ENTRY_BYTES {
        le32_at(entry, 12)
    } else {
        0
    }
}

/// The bytes of a name before its first zero.
pub open spec fn name_end(raw: Seq<u8>) -> int
    decreases raw.len(),
{
    if raw.len() == 0 {
        0
    } else if name_end(raw.drop_last()) < raw.len() - 1 {
        name_end(raw.drop_last())
    } else if raw.last() == 0 {
        raw.len() - 1
    } else {
        raw.len() as int
    }
}

/// How many bytes of a name come before its first zero.
pub fn name_len(raw: &[u8]) -> (r: usize)
    ensures
        r == name_end(raw@),
        r <= raw@.len(),
        forall|i: int| 0 <= i < r ==> raw@[i] != 0,
        r < raw@.len() ==> raw@[r as int] == 0,
{
    let mut i: usize = 0;
    while i < raw.len() && raw[i] != 0
        invariant
            i <= raw@.len(),
            forall|j: int| 0 <= j < i ==> raw@[j] != 0,
        decreases raw@.len() - i,
    {
        i = i + 1;
    }
    proof {
        lemma_name_end(raw@, i as int);
    }
    i
}

proof fn lemma_name_end(raw: Seq<u8>, n: int)
    requires
        0 <= n <= raw.len(),
        forall|j: int| 0 <= j < n ==> raw[j] != 0,
        n < raw.len() ==> raw[n] == 0,
    ensures
        name_end(raw) == n,
    decreases raw.len(),
{
    if raw.len() > 0 {
        if n < raw.len() {
            lemma_name_end(raw.drop_last(), n);
        } else {
            lemma_name_end(raw.drop_last(), n - 1);
        }
    }
}

/// A spell by its name, if enough of it could be read. The handler is that of
/// the spell's id, 0 where the table does not reach.
pub open spec fn spell_of(s: RawSpell, table: Option<Seq<u8>>) -> Option<(Seq<char>, SpellEntry)> {
    if s.entry_ptr == 0 || s.entry_bytes is None || name_address(s.entry_bytes->0@) == 0
        || s.raw_name is None || name_end(s.raw_name->0@) == 0 || s.base_name@.len() == 0 {
        None
    } else {
        let packed = le32_at(s.entry_bytes->0@, 4);
        Some(
            (
                s.base_name@,
                SpellEntry {
                    packed,
                    range: match s.range {
                        Some(n) => n,
                        None => 0,
                    },
                    dispatcher_byte: match table {
                        Some(t) => if packed < t.len() {
                            t[packed as int]
                        } else {
                            0
                        },
                        None => 0,
                    },
                },
            ),
        )
    }
}

/// The book with one more spell. Of two with the same name the one with the
/// higher id stays, which is the one learned last.
pub open spec fn with_spell(m: Map<Seq<char>, SpellEntry>, name: Seq<char>, e: SpellEntry) -> Map<
    Seq<char>,
    SpellEntry,
> {
    if m.contains_key(name) && e.packed <= m[name].packed {
        m
    } else {
        m.insert(name, e)
    }
}

/// The book of some spells.
pub open spec fn spells_of(spells: Seq<RawSpell>, table: Option<Seq<u8>>) -> Map<
    Seq<char>,
    SpellEntry,
>
    decreases spells.len(),
{
    if spells.len() == 0 {
        Map::empty()
    } else {
        let rest = spells_of(spells.drop_last(), table);
        match spell_of(spells.last(), table) {
            Some(s) => with_spell(rest, s.0, s.1),
            None => rest,
        }
    }
}

fn read_spell(s: &RawSpell, table: Option<&Vec<u8>>) -> (r: Option<SpellEntry>)
    ensures
        match spell_of(
            *s,
            match table {
                Some(t) => Some(t@),
                None => None,
            },
        ) {
            Some(spell) => spell.0 == s.base_name@ && r == Some(spell.1),
            None => r is None,
        },
{
    if s.entry_ptr == 0 {
        return None;
    }
    let entry_bytes: &Vec<u8> = match &s.entry_bytes {
        Some(b) => b,
        None => {
            return None;
        },
    };
    if name_pointer(entry_bytes.as_slice()) == 0 {
        return None;
    }
    let packed: u32 = read_u32(entry_bytes.as_slice(), 4);
    let raw: &Vec<u8> = match &s.raw_name {
        Some(b) => b,
        None => {
            return None;
        },
    };
    if name_len(raw.as_slice()) == 0 || s.base_name.as_str().is_empty() {
        return None;
    }
    let range: u32 = match s.range {
        Some(n) => n,
        None => 0,
    };
    let dispatcher_byte: u8 = match table {
        Some(t) => if (packed as usize) < t.len() {
            t[packed as usize]
        } else {
            0
        },
        None => 0,
    };
    Some(SpellEntry { packed, range, dispatcher_byte })
}

/// The names of a map.
pub open spec fn texts(s: Seq<&str>) -> Seq<Seq<char>> {
    Seq::new(s.len(), |i: int| s[i]@)
}

/// The names of spells that attack, in their order.
pub open spec fn attack_part(m: Map<Seq<char>, SpellEntry>, names: Seq<Seq<char>>) -> Seq<Seq<char>>
    decreases names.len(),
{
    if names.len() == 0 {
        seq![]
    } else if m[names.last()].attacks() {
        attack_part(m, names.drop_last()).push(names.last())
    } else {
        attack_part(m, names.drop_last())
    }
}

/// The names of spells that attack are those, each once.
proof fn lemma_attack_part(m: Map<Seq<char>, SpellEntry>, names: Seq<Seq<char>>)
    requires
        names.no_duplicates(),
    ensures
        attack_part(m, names).no_duplicates(),
        forall|k: Seq<char>| #[trigger]
            attack_part(m, names).contains(k) <==> names.contains(k) && m[k].attacks(),
    decreases names.len(),
{
    if names.len() > 0 {
        let before = names.drop_last();
        let last = names.last();
        let rest = attack_part(m, before);
        lemma_attack_part(m, before);
        assert(names =~= before.push(last));
        assert(!before.contains(last));
        assert forall|k: Seq<char>| #[trigger] names.contains(k) <==> (before.contains(k) || k
            == last) by {
            if before.contains(k) {
                let i = choose|i: int| 0 <= i < before.len() && before[i] == k;
                assert(names[i] == k);
            }
        }
        assert forall|k: Seq<char>| #[trigger] rest.push(last).contains(k) <==> (rest.contains(k)
            || k == last) by {
            if rest.contains(k) {
                let i = choose|i: int| 0 <= i < rest.len() && rest[i] == k;
                assert(rest.push(last)[i] == k);
            }
            assert(rest.push(last)[rest.len() as int] == last);
        }
        assert(!rest.contains(last));
        assert(rest.push(last).no_duplicates()) by {
            let s = rest.push(last);
            assert forall|i: int, j: int|
                0 <= i < s.len() && 0 <= j < s.len() && i != j implies s[i] != s[j] by {
                if i < rest.len() {
                    assert(rest.contains(rest[i]));
                }
                if j < rest.len() {
                    assert(rest.contains(rest[j]));
                }
            }
        }
    }
}

/// The spells that a book of some length holds, as far as they were read.
pub open spec fn counted_spells(spells: Seq<RawSpell>, count: u32) -> Seq<RawSpell> {
    if count < spells.len() {
        spells.take(count as int)
    } else {
        spells
    }
}

impl SpellBook {
    /// Makes a book of its first `count` entries, as they were read. Without the
    /// table of handlers no spell attacks.
    pub fn build(
        book_ptr: u32,
        count: u32,
        array_ptr: u32,
        spells: &Vec<RawSpell>,
        byte_table: Option<&Vec<u8>>,
    ) -> (r: Result<SpellBook, BookError>)
        ensures
            match book_checked(book_ptr, count, array_ptr) {
                Err(e) => r matches Err(f) && f == e,
                Ok(_) => r matches Ok(book) && book.book_ptr == book_ptr && book.map@ == spells_of(
                    counted_spells(spells@, count),
                    match byte_table {
                        Some(t) => Some(t@),
                        None => None,
                    },
                ),
            },
    {
        match check_book(book_ptr, count, array_ptr) {
            Err(e) => {
                return Err(e);
            },
            Ok(_) => {},
        }
        let ghost table: Option<Seq<u8>> = match byte_table {
            Some(t) => Some(t@),
            None => None,
        };
        let n: usize = if (count as usize) < spells.len() {
            count as usize
        } else {
            spells.len()
        };
        let mut map: NamedMap<SpellEntry> = NamedMap::new();
        let mut i: usize = 0;
        while i < n
            invariant
                i <= n <= spells@.len(),
                table == (match byte_table {
                    Some(t) => Some(t@),
                    None => None,
                }),
                map@ == spells_of(spells@.take(i as int), table),
            decreases n - i,
        {
            assert(spells@.take(i + 1).drop_last() =~= spells@.take(i as int));
            if let Some(entry) = read_spell(&spells[i], byte_table) {
                let keep: bool = match map.get(spells[i].base_name.as_str()) {
                    Some(known) => entry.packed <= known.packed,
                    None => false,
                };
                if !keep {
                    map.insert(spells[i].base_name.clone(), entry);
                }
            }
            i = i + 1;
        }
        assert(spells@.take(i as int) =~= counted_spells(spells@, count));
        Ok(SpellBook { map, book_ptr })
    }

    /// The id under which a spell is cast.
    pub fn lookup(&self, name: &str) -> (r: Option<u32>)
        ensures
            r == (if self.map@.contains_key(name@) {
                Some(self.map@[name@].packed)
            } else {
                None
            }),
    {
        match self.map.get(name) {
            Some(e) => Some(e.packed),
            None => None,
        }
    }

    /// The reach of a spell.
    pub fn range_of(&self, name: &str) -> (r: Option<u32>)
        ensures
            r == (if self.map@.contains_key(name@) {
                Some(self.map@[name@].range)
            } else {
                None
            }),
    {
        match self.map.get(name) {
            Some(e) => Some(e.range),
            None => None,
        }
    }

    /// The number of spells.
    pub fn unique_names(&self) -> (r: usize)
        ensures
            r == self.map@.dom().len(),
    {
        self.map.len()
    }

    /// The names of all spells.
    pub fn names_iter(&self) -> (r: Vec<&str>)
        ensures
            texts(r@) == self.map.name_seq(),
            texts(r@).no_duplicates(),
            forall|k: Seq<char>| #[trigger] texts(r@).contains(k) <==> self.map@.contains_key(k),
    {
        let n: usize = self.map.len();
        let mut out: Vec<&str> = Vec::new();
        let mut i: usize = 0;
        while i < n
            invariant
                i <= n,
                n == self.map.name_seq().len(),
                out@.len() == i,
                forall|j: int| 0 <= j < i ==> (#[trigger] out@[j])@ == self.map.name_seq()[j],
            decreases n - i,
        {
            out.push(self.map.name_at(i));
            i = i + 1;
        }
        assert(texts(out@) =~= self.map.name_seq());
        out
    }

    /// The names of the spells that attack.
    pub fn attack_names_iter(&self) -> (r: Vec<&str>)
        ensures
            texts(r@) == attack_part(self.map@, self.map.name_seq()),
            texts(r@).no_duplicates(),
            forall|k: Seq<char>| #[trigger]
                texts(r@).contains(k) <==> self.map@.contains_key(k) && self.map@[k].attacks(),
    {
        let n: usize = self.map.len();
        let mut out: Vec<&str> = Vec::new();
        let ghost names = self.map.name_seq();
        let mut i: usize = 0;
        assert(texts(out@) =~= attack_part(self.map@, names.take(0)));
        while i < n
            invariant
                i <= n,
                n == names.len(),
                names == self.map.name_seq(),
                texts(out@) == attack_part(self.map@, names.take(i as int)),
            decreases n - i,
        {
            assert(names.take(i + 1).drop_last() =~= names.take(i as int));
            let name: &str = self.map.name_at(i);
            let ghost before = out@;
            let attacks: bool = match self.map.get(name) {
                Some(e) => e.is_attack(),
                None => false,
            };
            if attacks {
                out.push(name);
                assert(texts(out@) =~= texts(before).push(name@));
            }
            i = i + 1;
        }
        assert(names.take(i as int) =~= names);
        proof {
            lemma_attack_part(self.map@, names);
        }
        out
    }

    pub open spec fn stale(self, current_book_ptr: u32) -> bool {
        current_book_ptr == 0 || self.book_ptr != current_book_ptr
    }

    /// Whether the book is another than the client's present one.
    pub fn is_stale_for(&self, current_book_ptr: u32) -> (r: bool)
        ensures
            r == self.stale(current_book_ptr),
    {
        current_book_ptr == 0 || self.book_ptr != current_book_ptr
    }
}

/// A book at hand that is the client's present one.
pub open spec fn has_fresh(book: Option<SpellBook>, current_book_ptr: u32) -> bool {
    book is Some && !book->0.stale(current_book_ptr)
}

/// Whether the book has to be read again.
pub fn needs_rebuild(book: &Option<SpellBook>, current_book_ptr: u32) -> (r: bool)
    ensures
        r == !has_fresh(*book, current_book_ptr),
{
    match book {
        Some(b) => b.is_stale_for(current_book_ptr),
        None => true,
    }
}

/// Keeps a fresh book, or puts the one that was read again in its place. Says
/// whether there is a book to go by.
pub fn ensure_fresh(
    slot: &mut Option<SpellBook>,
    current_book_ptr: u32,
    rebuilt: Option<SpellBook>,
) -> (r: bool)
    ensures
        r == (has_fresh(*old(slot), current_book_ptr) || rebuilt is Some),
        *final(slot) == (if !has_fresh(*old(slot), current_book_ptr) && rebuilt is Some {
            rebuilt
        } else {
            *old(slot)
        }),
{
    if !needs_rebuild(slot, current_book_ptr) {
        return true;
    }
    if rebuilt.is_some() {
        *slot = rebuilt;
        return true;
    }
    false
}

/// Of the spells that were read under a name, the book holds one with the
/// highest id, and it holds every name that was read.
pub proof fn law_highest_id_stays(spells: Seq<RawSpell>, table: Option<Seq<u8>>, i: int)
    requires
        0 <= i < spells.len(),
        spell_of(spells[i], table) is Some,
    ensures
        ({
            let s = spell_of(spells[i], table)->0;
            &&& spells_of(spells, table).contains_key(s.0)
            &&& spells_of(spells, table)[s.0].packed >= s.1.packed
        }),
    decreases spells.len(),
{
    let rest = spells.drop_last();
    if i < spells.len() - 1 {
        assert(rest[i] == spells[i]);
        law_highest_id_stays(rest, table, i);
    }
}

/// Handler 0, which stands for an unknown one, is not that of an attack.
proof fn lemma_no_handler_no_attack(e: SpellEntry)
    requires
        e.dispatcher_byte == 0,
    ensures
        !e.attacks(),
{
    let list = ATTACK_HANDLER_WHITELIST@;
    assert(forall|i: int| 0 <= i < list.len() ==> #[trigger] list[i] != 0u8);
}

/// Where the table of handlers cannot be read, no spell counts as an attack.
pub proof fn law_no_table_no_attack(spells: Seq<RawSpell>)
    ensures
        forall|name: Seq<char>| #[trigger]
            spells_of(spells, None).contains_key(name) ==> !spells_of(spells, None)[name].attacks(),
    decreases spells.len(),
{
    if spells.len() > 0 {
        let all = spells_of(spells, None);
        let rest = spells_of(spells.drop_last(), None);
        law_no_table_no_attack(spells.drop_last());
        if let Some(s) = spell_of(spells.last(), None) {
            lemma_no_handler_no_attack(s.1);
            assert forall|name: Seq<char>| #[trigger]
                all.contains_key(name) implies !all[name].attacks() by {
                if name != s.0 {
                    assert(rest.contains_key(name));
                    assert(all[name] == rest[name]);
                } else if rest.contains_key(name) {
                    assert(all[name] == rest[name] || all[name] == s.1);
                }
            }
        }
    }
}

/// A word is the number that its bytes stand for, the lowest first.
pub proof fn law_words(s: Seq<u8>, at: int)
    ensures
        le32_at(s, at) == s[at] + 256 * s[at + 1] + 65_536 * s[at + 2] + 16_777_216 * s[at + 3],
{
}

/// A name ends with its first zero, or with what was read.
pub proof fn law_name_ends(raw: Seq<u8>, k: int)
    ensures
        0 <= k < raw.len() && raw[k] == 0 && (forall|j: int| 0 <= j < k ==> #[trigger] raw[j] != 0)
            ==> name_end(raw) == k,
        (forall|j: int| 0 <= j < raw.len() ==> #[trigger] raw[j] != 0) ==> name_end(raw)
            == raw.len(),
    decreases raw.len(),
{
    if raw.len() > 0 {
        let rest = raw.drop_last();
        law_name_ends(rest, k);
        assert forall|j: int| 0 <= j < rest.len() implies #[trigger] rest[j] == raw[j] by {}
        assert(raw.last() == raw[raw.len() - 1]);
    }
}

/// A spell is read from an entry of its own with a name: the id from the second word
/// of the entry, the handler from the table at the id, and the reach where it is
/// known. Nothing is read where any of these is missing.
pub proof fn law_spell_is_read(s: RawSpell, table: Option<Seq<u8>>)
    ensures
        ({
            let bytes = s.entry_bytes->0@;
            let r = spell_of(s, table);
            let e = (r->0).1;
            &&& r is Some <==> s.entry_ptr != 0 && s.entry_bytes is Some && bytes.len() >= 16
                && bytes[12] + 256 * bytes[13] + 65_536 * bytes[14] + 16_777_216 * bytes[15] != 0
                && s.raw_name is Some && name_end(s.raw_name->0@) > 0 && s.base_name@.len() > 0
            &&& r is Some ==> {
                &&& (r->0).0 == s.base_name@
                &&& e.packed == bytes[4] + 256 * bytes[5] + 65_536 * bytes[6] + 16_777_216 * bytes[7]
                &&& s.range is Some ==> e.range == s.range->0
                &&& s.range is None ==> e.range == 0
                &&& table is Some && e.packed < table->0.len() ==> e.dispatcher_byte
                    == table->0[e.packed as int]
                &&& table is None || e.packed >= table->0.len() ==> e.dispatcher_byte == 0
            }
        }),
{
    lemma_name_inside(s.raw_name->0@);
}

proof fn lemma_name_inside(raw: Seq<u8>)
    ensures
        0 <= name_end(raw) <= raw.len(),
    decreases raw.len(),
{
    if raw.len() > 0 {
        lemma_name_inside(raw.drop_last());
    }
}

/// The entry under a name is that of the spell with the highest id of that name, and
/// of several the first. Every name that was read is there, and no other.
pub proof fn law_book_keeps_highest(spells: Seq<RawSpell>, table: Option<Seq<u8>>, name: Seq<char>)
    ensures
        spells_of(spells, table).contains_key(name) <==> exists|i: int|
            0 <= i < spells.len() && is_named(#[trigger] spells[i], table, name),
        spells_of(spells, table).contains_key(name) ==> exists|i: int|
            {
                &&& 0 <= i < spells.len() && is_named(#[trigger] spells[i], table, name)
                &&& spells_of(spells, table)[name] == (spell_of(spells[i], table)->0).1
                &&& is_first_highest(spells, table, name, i)
            },
    decreases spells.len(),
{
    if spells.len() > 0 {
        let rest = spells.drop_last();
        let last = spells.len() - 1;
        law_book_keeps_highest(rest, table, name);
        assert(spells.last() == spells[last]);
        assert forall|j: int| 0 <= j < rest.len() implies #[trigger] rest[j] == spells[j] by {}
        let before = spells_of(rest, table);
        let after = spells_of(spells, table);
        let named = is_named(spells[last], table, name);
        if before.contains_key(name) {
            let i = choose|i: int|
                {
                    &&& 0 <= i < rest.len() && is_named(#[trigger] rest[i], table, name)
                    &&& before[name] == (spell_of(rest[i], table)->0).1
                    &&& is_first_highest(rest, table, name, i)
                };
            assert(is_named(spells[i], table, name));
            if named && (spell_of(spells[last], table)->0).1.packed > before[name].packed {
                assert(after[name] == (spell_of(spells[last], table)->0).1);
                assert(is_first_highest(spells, table, name, last)) by {
                    assert forall|j: int|
                        0 <= j < spells.len() && is_named(#[trigger] spells[j], table, name) && j
                            < last implies (spell_of(spells[j], table)->0).1.packed < (spell_of(
                        spells[last],
                        table,
                    )->0).1.packed by {
                        assert(is_named(rest[j], table, name));
                    }
                }
            } else {
                assert(after[name] == before[name]);
                assert(is_first_highest(spells, table, name, i)) by {
                    assert forall|j: int|
                        0 <= j < spells.len() && is_named(
                            #[trigger] spells[j],
                            table,
                            name,
                        ) implies (spell_of(spells[j], table)->0).1.packed <= (spell_of(
                        spells[i],
                        table,
                    )->0).1.packed && (j < i ==> (spell_of(spells[j], table)->0).1.packed < (
                    spell_of(spells[i], table)->0).1.packed) by {
                        if j < rest.len() {
                            assert(is_named(rest[j], table, name));
                        }
                    }
                }
            }
        } else {
            assert forall|j: int| 0 <= j < rest.len() implies !is_named(
                #[trigger] spells[j],
                table,
                name,
            ) by {
                assert(!is_named(rest[j], table, name));
            }
            if named {
                assert(after[name] == (spell_of(spells[last], table)->0).1);
                assert(is_first_highest(spells, table, name, last));
            }
        }
    }
}

/// A spell is read under a name.
pub open spec fn is_named(s: RawSpell, table: Option<Seq<u8>>, name: Seq<char>) -> bool {
    spell_of(s, table) is Some && (spell_of(s, table)->0).0 == name
}

/// Of the spells of a name none has a higher id, and none before has the same.
pub open spec fn is_first_highest(
    spells: Seq<RawSpell>,
    table: Option<Seq<u8>>,
    name: Seq<char>,
    i: int,
) -> bool {
    forall|j: int|
        0 <= j < spells.len() && is_named(#[trigger] spells[j], table, name) ==> (spell_of(
            spells[j],
            table,
        )->0).1.packed <= (spell_of(spells[i], table)->0).1.packed && (j < i ==> (spell_of(
            spells[j],
            table,
        )->0).1.packed < (spell_of(spells[i], table)->0).1.packed)
}

/// As many spells are read as the book says it holds.
pub proof fn law_counted_spells(spells: Seq<RawSpell>, count: u32, i: int)
    ensures
        count < spells.len() ==> counted_spells(spells, count).len() == count,
        count >= spells.len() ==> counted_spells(spells, count).len() == spells.len(),
        0 <= i < spells.len() && i < count ==> counted_spells(spells, count)[i] == spells[i],
{
}

/// A book is read where there is one, with something in it, and not too much.
pub proof fn law_book_checked(book_ptr: u32, count: u32, array_ptr: u32)
    ensures
        book_checked(book_ptr, count, array_ptr) is Ok <==> book_ptr != 0 && array_ptr != 0 && 1
            <= count <= 1024,
        book_ptr == 0 ==> book_checked(book_ptr, count, array_ptr) == Err::<(), BookError>(
            BookError::NullBook,
        ),
        book_ptr != 0 && array_ptr != 0 && count > 1024 ==> book_checked(book_ptr, count, array_ptr)
            == Err::<(), BookError>(BookError::TooMany { count }),
        book_ptr != 0 && (array_ptr == 0 || count == 0) ==> book_checked(book_ptr, count, array_ptr)
            == Err::<(), BookError>(BookError::Empty { count, array_ptr }),
{
}

/// A book is of use while the client has the same one.
pub proof fn law_same_book(book: SpellBook, ptr: u32)
    ensures
        book.stale(ptr) <==> ptr == 0 || ptr != book.book_ptr,
        has_fresh(Some(book), ptr) <==> ptr != 0 && ptr == book.book_ptr,
        !has_fresh(None, ptr),
{
}

/// Attack spells are listed in the order of the book, one after the other.
pub proof fn law_attack_names(
    m: Map<Seq<char>, SpellEntry>,
    a: Seq<Seq<char>>,
    b: Seq<Seq<char>>,
    name: Seq<char>,
)
    ensures
        attack_part(m, a + b) == attack_part(m, a) + attack_part(m, b),
        m[name].attacks() ==> attack_part(m, seq![name]) == seq![name],
        !m[name].attacks() ==> attack_part(m, seq![name]).len() == 0,
    decreases b.len(),
{
    assert(seq![name].drop_last() =~= Seq::<Seq<char>>::empty());
    assert(attack_part(m, Seq::<Seq<char>>::empty()) =~= seq![]);
    if m[name].attacks() {
        assert(attack_part(m, seq![name]) =~= seq![name]);
    }
    if b.len() > 0 {
        assert((a + b).drop_last() =~= a + b.drop_last());
        law_attack_names(m, a, b.drop_last(), name);
        assert(attack_part(m, a + b) =~= attack_part(m, a) + attack_part(m, b));
    } else {
        assert(a + b =~= a);
        assert(attack_part(m, a + b) =~= attack_part(m, a) + attack_part(m, b));
    }
}

/// The handlers of attack spells.
pub proof fn law_attack_handlers(e: SpellEntry)
    ensures
        ({
            let b = e.dispatcher_byte;
            e.attacks() <==> {
                ||| b == 2 || b == 5 || b == 6 || b == 8 || b == 9
                ||| 0x0C <= b <= 0x13
                ||| b == 0x15 || b == 0x16 || b == 0x18 || b == 0x1A || b == 0x1D
                ||| b == 0x24 || b == 0x26 || 0x28 <= b <= 0x2A
                ||| 0x2D <= b <= 0x2F
                ||| 0x31 <= b <= 0x35
                ||| b == 0x37 || b == 0x38
                ||| 0x3A <= b <= 0x3C
            }
        }),
{
    let w = ATTACK_HANDLER_WHITELIST@;
    let b = e.dispatcher_byte;
    assert(w.len() == 36);
    assert(w[0] == 2 && w[1] == 5 && w[2] == 6 && w[3] == 8 && w[4] == 9);
    assert(w[5] == 0x0C && w[6] == 0x0D && w[7] == 0x0E && w[8] == 0x0F && w[9] == 0x10 && w[10]
        == 0x11 && w[11] == 0x12 && w[12] == 0x13);
    assert(w[13] == 0x15 && w[14] == 0x16 && w[15] == 0x18 && w[16] == 0x1A && w[17] == 0x1D);
    assert(w[18] == 0x24 && w[19] == 0x26 && w[20] == 0x28 && w[21] == 0x29 && w[22] == 0x2A);
    assert(w[23] == 0x2D && w[24] == 0x2E && w[25] == 0x2F);
    assert(w[26] == 0x31 && w[27] == 0x32 && w[28] == 0x33 && w[29] == 0x34 && w[30] == 0x35);
    assert(w[31] == 0x37 && w[32] == 0x38 && w[33] == 0x3A && w[34] == 0x3B && w[35] == 0x3C);
}

} // verus!
