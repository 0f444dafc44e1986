//! What redaction does to a configuration entry of each secret key.
use vstd::prelude::*;
use vstd::utf8::encode_utf8;
use crate::security::{find_key_from, redact_spec, redact_key, redact_keys, redact_value, redacted_keys,
    followed_by_underscore, char_index_at_byte};
use crate::text::{bytes_occur_at, occurs_at, index_of_from, lemma_index_of_from_is, lemma_index_of_from_bounds, lowercase};

verus! {

/// Every character of `s` is ASCII.
pub open spec fn is_ascii_text(s: Seq<char>) -> bool {
    forall|i: int| 0 <= i < s.len() ==> (#[trigger] s[i] as u32) < 128
}

/// The bytes of an ASCII text.
pub open spec fn ascii_bytes(s: Seq<char>) -> Seq<u8> {
    Seq::new(s.len(), |i: int| (s[i] as u32) as u8)
}

proof fn lemma_encode_ascii(s: Seq<char>)
    requires
        is_ascii_text(s),
    ensures
        encode_utf8(s) == ascii_bytes(s),
    decreases s.len(),
{
    if s.len() > 0 {
        let c = s[0] as u32;
        assert(c < 128);
        assert(c <= 0x7F ==> (c & 0x7F) == c) by (bit_vector);
        assert(is_ascii_text(s.drop_first())) by {
            assert forall|i: int| 0 <= i < s.drop_first().len() implies (#[trigger] s.drop_first()[i] as u32) < 128 by {
                assert(s.drop_first()[i] == s[i + 1]);
            }
        }
        lemma_encode_ascii(s.drop_first());
        assert(encode_utf8(s) =~= ascii_bytes(s));
    } else {
        assert(encode_utf8(s) =~= ascii_bytes(s));
    }
}

/// The bytes of two ASCII characters are equal only when the characters are.
proof fn lemma_ascii_byte_injective(a: char, b: char)
    requires
        (a as u32) < 128,
        (b as u32) < 128,
        (a as u32) as u8 == (b as u32) as u8,
    ensures
        a == b,
{
    let x = a as u32;
    let y = b as u32;
    assert(x < 128 && y < 128 && x as u8 == y as u8 ==> x == y) by (bit_vector);
}

/// A key that starts an ASCII text, followed by something other than `_`,
/// is found at its first byte.
proof fn lemma_key_at_start(t: Seq<char>, k: Seq<char>)
    requires
        is_ascii_text(t),
        is_ascii_text(k),
        k.len() < t.len(),
        t.subrange(0, k.len() as int) == k,
        t[k.len() as int] != '_',
    ensures
        find_key_from(encode_utf8(t), encode_utf8(k), 0) == Some(0int),
{
    lemma_encode_ascii(t);
    lemma_encode_ascii(k);
    let b = ascii_bytes(t);
    let kb = ascii_bytes(k);
    assert forall|i: int| 0 <= i < k.len() implies b[i] == kb[i] by {
        assert(t.subrange(0, k.len() as int)[i] == t[i]);
    }
    assert(b.subrange(0, kb.len() as int) =~= kb);
    assert(bytes_occur_at(b, kb, 0));
    let n = k.len() as int;
    if b[n] == 0x5Fu8 {
        assert(('_' as u32) < 128);
        assert(('_' as u32) as u8 == 0x5Fu8);
        lemma_ascii_byte_injective(t[n], '_');
    }
    assert(!followed_by_underscore(b, n, 0));
}

/// Without an occurrence at or after `start`, `find_key_from` finds nothing.
proof fn lemma_find_none(b: Seq<u8>, kb: Seq<u8>, start: int)
    requires
        start >= 0,
        forall|p: int| start <= p ==> !bytes_occur_at(b, kb, p),
    ensures
        find_key_from(b, kb, start) is None,
    decreases b.len() + 1 - start,
{
    if !(start + kb.len() > b.len()) {
        lemma_find_none(b, kb, start + 1);
    }
}

/// A key that occurs nowhere in an ASCII text is not found in its bytes.
proof fn lemma_key_absent(t: Seq<char>, k: Seq<char>)
    requires
        is_ascii_text(t),
        is_ascii_text(k),
        forall|p: int| !#[trigger] occurs_at(t, k, p),
    ensures
        find_key_from(encode_utf8(t), encode_utf8(k), 0) is None,
{
    lemma_encode_ascii(t);
    lemma_encode_ascii(k);
    let b = ascii_bytes(t);
    let kb = ascii_bytes(k);
    assert forall|p: int| 0 <= p implies !bytes_occur_at(b, kb, p) by {
        if bytes_occur_at(b, kb, p) {
            assert forall|i: int| 0 <= i < k.len() implies t.subrange(p, p + k.len())[i] == k[i] by {
                assert(b.subrange(p, p + kb.len())[i] == kb[i]);
                lemma_ascii_byte_injective(t[p + i], k[i]);
            }
            assert(t.subrange(p, p + k.len()) =~= k);
            assert(occurs_at(t, k, p));
        }
    }
    lemma_find_none(b, kb, 0);
}

/// A text differs from `k` at position `p` when one of its characters does.
proof fn lemma_mismatch(t: Seq<char>, k: Seq<char>, p: int, j: int)
    requires
        0 <= j < k.len(),
        p + k.len() <= t.len() ==> t[p + j] != k[j],
    ensures
        !occurs_at(t, k, p),
{
    if occurs_at(t, k, p) {
        assert(t.subrange(p, p + k.len())[j] == t[p + j]);
    }
}

/// The configuration entry `key = "value"`.
pub open spec fn quoted_entry(key: Seq<char>, value: Seq<char>) -> Seq<char> {
    key + " = \""@ + value + "\""@
}

/// Whether `c` occurs in `s`.
pub open spec fn has_char(s: Seq<char>, c: char) -> bool {
    exists|i: int| 0 <= i < s.len() && s[i] == c
}

proof fn lemma_entry_shape(key: Seq<char>, value: Seq<char>)
    ensures
        quoted_entry(key, value).len() == key.len() + 5 + value.len(),
        forall|i: int| 0 <= i < key.len() ==> #[trigger] quoted_entry(key, value)[i] == key[i],
        quoted_entry(key, value)[key.len() as int] == ' ',
        quoted_entry(key, value)[key.len() + 1int] == '=',
        quoted_entry(key, value)[key.len() + 2int] == ' ',
        quoted_entry(key, value)[key.len() + 3int] == '"',
        forall|i: int| key.len() + 4 <= i < key.len() + 4 + value.len()
            ==> #[trigger] quoted_entry(key, value)[i] == value[i - key.len() - 4],
        quoted_entry(key, value)[key.len() + 4int + value.len()] == '"',
{
    reveal_strlit(" = \"");
    reveal_strlit("\"");
    assert(" = \""@.len() == 4);
    assert("\""@.len() == 1);
    let t = quoted_entry(key, value);
    let x1 = key + " = \""@;
    let x2 = x1 + value;
    assert(x1.len() == key.len() + 4);
    assert(x2.len() == key.len() + 4 + value.len());
    assert(t == x2 + "\""@);
    assert(t.len() == key.len() + 5 + value.len());
    assert forall|i: int| key.len() + 4 <= i < key.len() + 4 + value.len()
        implies #[trigger] t[i] == value[i - key.len() - 4] by {
        assert(t[i] == x2[i]);
    }
    assert forall|i: int| 0 <= i < key.len() implies #[trigger] t[i] == key[i] by {
        assert(t[i] == x2[i]);
        assert(x2[i] == x1[i]);
    }
}

/// An entry of an ASCII key and value is ASCII.
proof fn lemma_entry_ascii(key: Seq<char>, value: Seq<char>)
    requires
        is_ascii_text(key),
        is_ascii_text(value),
    ensures
        is_ascii_text(quoted_entry(key, value)),
{
    lemma_entry_shape(key, value);
    let t = quoted_entry(key, value);
    assert forall|i: int| 0 <= i < t.len() implies (#[trigger] t[i] as u32) < 128 by {
        if i < key.len() {
            assert(t[i] == key[i]);
        } else if key.len() + 4 <= i < key.len() + 4 + value.len() {
            assert(t[i] == value[i - key.len() - 4]);
        }
    }
}

/// A key without `"` that occurs nowhere in `value`, nor in the part
/// `key = ` of the entry, occurs nowhere in the entry.
proof fn lemma_entry_key_absent(key: Seq<char>, value: Seq<char>, k2: Seq<char>)
    requires
        is_ascii_text(key),
        is_ascii_text(value),
        is_ascii_text(k2),
        0 < k2.len(),
        !has_char(k2, '"'),
        forall|i: int| !#[trigger] occurs_at(value, k2, i),
        forall|p: int| 0 <= p && p + k2.len() <= key.len() + 3 ==> !#[trigger] occurs_at(quoted_entry(key, value), k2, p),
    ensures
        find_key_from(encode_utf8(quoted_entry(key, value)), encode_utf8(k2), 0) is None,
{
    lemma_entry_shape(key, value);
    lemma_entry_ascii(key, value);
    let t = quoted_entry(key, value);
    let a = key.len() + 4;
    assert forall|p: int| !#[trigger] occurs_at(t, k2, p) by {
        if 0 <= p && p + k2.len() <= t.len() {
            if p + k2.len() <= key.len() + 3 {
            } else if p <= key.len() + 3 {
                let j = key.len() + 3 - p;
                if k2[j] == '"' {
                    assert(has_char(k2, '"'));
                }
                lemma_mismatch(t, k2, p, j);
            } else if p + k2.len() <= a + value.len() {
                if occurs_at(t, k2, p) {
                    assert forall|i: int| 0 <= i < k2.len() implies value.subrange(p - a, p - a + k2.len())[i] == k2[i] by {
                        assert(t.subrange(p, p + k2.len())[i] == k2[i]);
                        assert(t[p + i] == value[p - a + i]);
                    }
                    assert(value.subrange(p - a, p - a + k2.len()) =~= k2);
                    assert(occurs_at(value, k2, p - a));
                }
            } else {
                let j = a + value.len() - p;
                if k2[j] == '"' {
                    assert(has_char(k2, '"'));
                }
                lemma_mismatch(t, k2, p, j);
            }
        }
    }
    lemma_key_absent(t, k2);
}

/// Redacting from the start of an entry whose key holds no `=` nor `"`, and
/// whose value holds no `"`, replaces the value by the marker.
proof fn lemma_entry_redact_value(key: Seq<char>, value: Seq<char>)
    requires
        !has_char(key, '='),
        !has_char(key, '"'),
        !has_char(value, '"'),
    ensures
        redact_value(quoted_entry(key, value), 0) == quoted_entry(key, "[REDACTED]"@),
{
    lemma_entry_shape(key, value);
    let t = quoted_entry(key, value);
    let n = key.len() as int;
    assert forall|j: int| 0 <= j < n + 1 implies t[j] != '=' by {
        if j < n {
            if t[j] == '=' { assert(key[j] == '='); assert(has_char(key, '=')); }
        }
    }
    lemma_index_of_from_is(t, '=', 0, n + 1);
    lemma_index_of_from_is(t, '"', n + 1, n + 3);
    assert forall|j: int| n + 4 <= j < n + 4 + value.len() implies t[j] != '"' by {
        assert(t[j] == value[j - n - 4]);
        if value[j - n - 4] == '"' { assert(has_char(value, '"')); }
    }
    lemma_index_of_from_is(t, '"', n + 4, n + 4 + value.len());
    lemma_entry_shape(key, "[REDACTED]"@);
    reveal_strlit("[REDACTED]");
    let r = quoted_entry(key, "[REDACTED]"@);
    assert(r.len() == n + 15);
    let out = t.subrange(0, n + 4) + "[REDACTED]"@ + t.subrange(n + 4 + value.len(), t.len() as int);
    assert forall|i: int| 0 <= i < r.len() implies out[i] == r[i] by {
        if n + 4 <= i < n + 14 {
            assert(r[i] == "[REDACTED]"@[i - n - 4]);
        }
    }
    assert(out =~= r);
}

proof fn lemma_text_password()
    ensures
        "password"@.len() == 8,
        is_ascii_text("password"@),
        !has_char("password"@, '='),
        !has_char("password"@, '"'),
{
    reveal_strlit("password");
    assert forall|i: int| 0 <= i < 8 implies ("password"@[i] as u32) < 128 && "password"@[i] != '=' && "password"@[i] != '"' by {
        if i == 0 {} else if i == 1 {} else if i == 2 {} else if i == 3 {} else if i == 4 {} else if i == 5 {} else if i == 6 {} else if i == 7 {}
    }
}

proof fn lemma_text_passphrase()
    ensures
        "passphrase"@.len() == 10,
        is_ascii_text("passphrase"@),
        !has_char("passphrase"@, '='),
        !has_char("passphrase"@, '"'),
{
    reveal_strlit("passphrase");
    assert forall|i: int| 0 <= i < 10 implies ("passphrase"@[i] as u32) < 128 && "passphrase"@[i] != '=' && "passphrase"@[i] != '"' by {
        if i == 0 {} else if i == 1 {} else if i == 2 {} else if i == 3 {} else if i == 4 {} else if i == 5 {} else if i == 6 {} else if i == 7 {} else if i == 8 {} else if i == 9 {}
    }
}

proof fn lemma_text_secret()
    ensures
        "secret"@.len() == 6,
        is_ascii_text("secret"@),
        !has_char("secret"@, '='),
        !has_char("secret"@, '"'),
{
    reveal_strlit("secret");
    assert forall|i: int| 0 <= i < 6 implies ("secret"@[i] as u32) < 128 && "secret"@[i] != '=' && "secret"@[i] != '"' by {
        if i == 0 {} else if i == 1 {} else if i == 2 {} else if i == 3 {} else if i == 4 {} else if i == 5 {}
    }
}

proof fn lemma_text_private_key()
    ensures
        "private_key"@.len() == 11,
        is_ascii_text("private_key"@),
        !has_char("private_key"@, '='),
        !has_char("private_key"@, '"'),
{
    reveal_strlit("private_key");
    assert forall|i: int| 0 <= i < 11 implies ("private_key"@[i] as u32) < 128 && "private_key"@[i] != '=' && "private_key"@[i] != '"' by {
        if i == 0 {} else if i == 1 {} else if i == 2 {} else if i == 3 {} else if i == 4 {} else if i == 5 {} else if i == 6 {} else if i == 7 {} else if i == 8 {} else if i == 9 {} else if i == 10 {}
    }
}

proof fn lemma_text_redacted_lower()
    ensures
        "[redacted]"@.len() == 10,
        is_ascii_text("[redacted]"@),
        !has_char("[redacted]"@, '='),
        !has_char("[redacted]"@, '"'),
{
    reveal_strlit("[redacted]");
    assert forall|i: int| 0 <= i < 10 implies ("[redacted]"@[i] as u32) < 128 && "[redacted]"@[i] != '=' && "[redacted]"@[i] != '"' by {
        if i == 0 {} else if i == 1 {} else if i == 2 {} else if i == 3 {} else if i == 4 {} else if i == 5 {} else if i == 6 {} else if i == 7 {} else if i == 8 {} else if i == 9 {}
    }
}

/// Redaction handles `password`, `passphrase`, `secret` and `private_key`,
/// in that order.
proof fn lemma_redact_keys_unfold(s: Seq<char>)
    ensures
        redact_spec(s) == match redact_key(s, "password"@) {
            None => None,
            Some(a) => match redact_key(a, "passphrase"@) {
                None => None,
                Some(b) => match redact_key(b, "secret"@) {
                    None => None,
                    Some(c) => redact_key(c, "private_key"@),
                },
            },
        },
{
    let k = redacted_keys();
    reveal_with_fuel(redact_keys, 5);
    assert(k.drop_last().drop_last().drop_last().drop_last() =~= Seq::<Seq<char>>::empty());
    assert(k.drop_last().drop_last().drop_last() =~= seq!["password"@]);
    assert(k.drop_last().drop_last() =~= seq!["password"@, "passphrase"@]);
    assert(k.drop_last() =~= seq!["password"@, "passphrase"@, "secret"@]);
}

/// The entry `password = "value"` comes back with the quoted value replaced
/// by `[REDACTED]`, whatever the value (it holds no `"`), provided that
/// lower-casing the entry gives the same entry with the value lower-cased to
/// the ASCII text `lowered`, that lower-casing the redacted entry gives it with
/// `[redacted]`, and that `lowered` names none of the keys handled
/// before `password`.
pub proof fn lemma_password_entry_redacted(value: Seq<char>, lowered: Seq<char>)
    requires
        !has_char(value, '"'),
        is_ascii_text(lowered),
        lowercase(quoted_entry("password"@, value)) == quoted_entry("password"@, lowered),
        lowercase(quoted_entry("password"@, "[REDACTED]"@)) == quoted_entry("password"@, "[redacted]"@),
    ensures
        redact_spec(quoted_entry("password"@, value)) == Some(quoted_entry("password"@, "[REDACTED]"@)),
{
    reveal_strlit("password");
    reveal_strlit("passphrase");
    reveal_strlit("secret");
    reveal_strlit("private_key");
    reveal_strlit("[redacted]");
    lemma_text_password();
    lemma_text_passphrase();
    lemma_text_private_key();
    lemma_text_secret();
    lemma_text_redacted_lower();
    let t = quoted_entry("password"@, value);
    let lt = quoted_entry("password"@, lowered);
    let r = quoted_entry("password"@, "[REDACTED]"@);
    let lr = quoted_entry("password"@, "[redacted]"@);
    lemma_entry_shape("password"@, lowered);
    lemma_entry_shape("password"@, "[redacted]"@);
    lemma_redact_keys_unfold(t);
    {
        let t = lt;
    }
    lemma_entry_ascii("password"@, lowered);
    assert(lt.subrange(0, "password"@.len() as int) =~= "password"@);
    lemma_key_at_start(lt, "password"@);
    lemma_entry_redact_value("password"@, value);
    assert(redact_key(t, "password"@) == Some(r));
    {
        let t = lr;
        assert forall|p: int| !#[trigger] occurs_at("[redacted]"@, "passphrase"@, p) by {
            if 0 <= p && p + "passphrase"@.len() <= "[redacted]"@.len() {
                if p == 0 { lemma_mismatch("[redacted]"@, "passphrase"@, 0, 0); }
            }
        }
        assert forall|p: int| 0 <= p && p + "passphrase"@.len() <= "password"@.len() + 3 implies !#[trigger] occurs_at(t, "passphrase"@, p) by {
            if p == 0 { lemma_mismatch(t, "passphrase"@, 0, 4); } else if p == 1 { lemma_mismatch(t, "passphrase"@, 1, 0); }
        }
        lemma_entry_key_absent("password"@, "[redacted]"@, "passphrase"@);
        assert forall|p: int| !#[trigger] occurs_at("[redacted]"@, "secret"@, p) by {
            if 0 <= p && p + "secret"@.len() <= "[redacted]"@.len() {
                if p == 0 { lemma_mismatch("[redacted]"@, "secret"@, 0, 0); } else if p == 1 { lemma_mismatch("[redacted]"@, "secret"@, 1, 0); } else if p == 2 { lemma_mismatch("[redacted]"@, "secret"@, 2, 0); } else if p == 3 { lemma_mismatch("[redacted]"@, "secret"@, 3, 0); } else if p == 4 { lemma_mismatch("[redacted]"@, "secret"@, 4, 0); }
            }
        }
        assert forall|p: int| 0 <= p && p + "secret"@.len() <= "password"@.len() + 3 implies !#[trigger] occurs_at(t, "secret"@, p) by {
            if p == 0 { lemma_mismatch(t, "secret"@, 0, 0); } else if p == 1 { lemma_mismatch(t, "secret"@, 1, 0); } else if p == 2 { lemma_mismatch(t, "secret"@, 2, 1); } else if p == 3 { lemma_mismatch(t, "secret"@, 3, 1); } else if p == 4 { lemma_mismatch(t, "secret"@, 4, 0); } else if p == 5 { lemma_mismatch(t, "secret"@, 5, 0); }
        }
        lemma_entry_key_absent("password"@, "[redacted]"@, "secret"@);
        assert forall|p: int| !#[trigger] occurs_at("[redacted]"@, "private_key"@, p) by {
            if 0 <= p && p + "private_key"@.len() <= "[redacted]"@.len() {
                
            }
        }
        assert forall|p: int| 0 <= p && p + "private_key"@.len() <= "password"@.len() + 3 implies !#[trigger] occurs_at(t, "private_key"@, p) by {
            if p == 0 { lemma_mismatch(t, "private_key"@, 0, 1); }
        }
        lemma_entry_key_absent("password"@, "[redacted]"@, "private_key"@);
    }
}

/// The entry `passphrase = "value"` comes back with the quoted value replaced
/// by `[REDACTED]`, whatever the value (it holds no `"`), provided that
/// lower-casing the entry gives the same entry with the value lower-cased to
/// the ASCII text `lowered`, that lower-casing the redacted entry gives it with
/// `[redacted]`, and that `lowered` names none of the keys handled
/// before `passphrase`.
pub proof fn lemma_passphrase_entry_redacted(value: Seq<char>, lowered: Seq<char>)
    requires
        !has_char(value, '"'),
        is_ascii_text(lowered),
        forall|i: int| !#[trigger] occurs_at(lowered, "password"@, i),
        lowercase(quoted_entry("passphrase"@, value)) == quoted_entry("passphrase"@, lowered),
        lowercase(quoted_entry("passphrase"@, "[REDACTED]"@)) == quoted_entry("passphrase"@, "[redacted]"@),
    ensures
        redact_spec(quoted_entry("passphrase"@, value)) == Some(quoted_entry("passphrase"@, "[REDACTED]"@)),
{
    reveal_strlit("password");
    reveal_strlit("passphrase");
    reveal_strlit("secret");
    reveal_strlit("private_key");
    reveal_strlit("[redacted]");
    lemma_text_passphrase();
    lemma_text_private_key();
    lemma_text_password();
    lemma_text_secret();
    lemma_text_redacted_lower();
    let t = quoted_entry("passphrase"@, value);
    let lt = quoted_entry("passphrase"@, lowered);
    let r = quoted_entry("passphrase"@, "[REDACTED]"@);
    let lr = quoted_entry("passphrase"@, "[redacted]"@);
    lemma_entry_shape("passphrase"@, lowered);
    lemma_entry_shape("passphrase"@, "[redacted]"@);
    lemma_redact_keys_unfold(t);
    {
        let t = lt;
        assert forall|p: int| 0 <= p && p + "password"@.len() <= "passphrase"@.len() + 3 implies !#[trigger] occurs_at(t, "password"@, p) by {
            if p == 0 { lemma_mismatch(t, "password"@, 0, 4); } else if p == 1 { lemma_mismatch(t, "password"@, 1, 0); } else if p == 2 { lemma_mismatch(t, "password"@, 2, 0); } else if p == 3 { lemma_mismatch(t, "password"@, 3, 0); } else if p == 4 { lemma_mismatch(t, "password"@, 4, 1); } else if p == 5 { lemma_mismatch(t, "password"@, 5, 0); }
        }
        lemma_entry_key_absent("passphrase"@, lowered, "password"@);
    }
    lemma_entry_ascii("passphrase"@, lowered);
    assert(lt.subrange(0, "passphrase"@.len() as int) =~= "passphrase"@);
    lemma_key_at_start(lt, "passphrase"@);
    lemma_entry_redact_value("passphrase"@, value);
    assert(redact_key(t, "passphrase"@) == Some(r));
    {
        let t = lr;
        assert forall|p: int| !#[trigger] occurs_at("[redacted]"@, "secret"@, p) by {
            if 0 <= p && p + "secret"@.len() <= "[redacted]"@.len() {
                if p == 0 { lemma_mismatch("[redacted]"@, "secret"@, 0, 0); } else if p == 1 { lemma_mismatch("[redacted]"@, "secret"@, 1, 0); } else if p == 2 { lemma_mismatch("[redacted]"@, "secret"@, 2, 0); } else if p == 3 { lemma_mismatch("[redacted]"@, "secret"@, 3, 0); } else if p == 4 { lemma_mismatch("[redacted]"@, "secret"@, 4, 0); }
            }
        }
        assert forall|p: int| 0 <= p && p + "secret"@.len() <= "passphrase"@.len() + 3 implies !#[trigger] occurs_at(t, "secret"@, p) by {
            if p == 0 { lemma_mismatch(t, "secret"@, 0, 0); } else if p == 1 { lemma_mismatch(t, "secret"@, 1, 0); } else if p == 2 { lemma_mismatch(t, "secret"@, 2, 1); } else if p == 3 { lemma_mismatch(t, "secret"@, 3, 1); } else if p == 4 { lemma_mismatch(t, "secret"@, 4, 0); } else if p == 5 { lemma_mismatch(t, "secret"@, 5, 0); } else if p == 6 { lemma_mismatch(t, "secret"@, 6, 0); } else if p == 7 { lemma_mismatch(t, "secret"@, 7, 0); }
        }
        lemma_entry_key_absent("passphrase"@, "[redacted]"@, "secret"@);
        assert forall|p: int| !#[trigger] occurs_at("[redacted]"@, "private_key"@, p) by {
            if 0 <= p && p + "private_key"@.len() <= "[redacted]"@.len() {
                
            }
        }
        assert forall|p: int| 0 <= p && p + "private_key"@.len() <= "passphrase"@.len() + 3 implies !#[trigger] occurs_at(t, "private_key"@, p) by {
            if p == 0 { lemma_mismatch(t, "private_key"@, 0, 1); } else if p == 1 { lemma_mismatch(t, "private_key"@, 1, 0); } else if p == 2 { lemma_mismatch(t, "private_key"@, 2, 0); }
        }
        lemma_entry_key_absent("passphrase"@, "[redacted]"@, "private_key"@);
    }
}

/// The entry `secret = "value"` comes back with the quoted value replaced
/// by `[REDACTED]`, whatever the value (it holds no `"`), provided that
/// lower-casing the entry gives the same entry with the value lower-cased to
/// the ASCII text `lowered`, that lower-casing the redacted entry gives it with
/// `[redacted]`, and that `lowered` names none of the keys handled
/// before `secret`.
pub proof fn lemma_secret_entry_redacted(value: Seq<char>, lowered: Seq<char>)
    requires
        !has_char(value, '"'),
        is_ascii_text(lowered),
        forall|i: int| !#[trigger] occurs_at(lowered, "password"@, i),
        forall|i: int| !#[trigger] occurs_at(lowered, "passphrase"@, i),
        lowercase(quoted_entry("secret"@, value)) == quoted_entry("secret"@, lowered),
        lowercase(quoted_entry("secret"@, "[REDACTED]"@)) == quoted_entry("secret"@, "[redacted]"@),
    ensures
        redact_spec(quoted_entry("secret"@, value)) == Some(quoted_entry("secret"@, "[REDACTED]"@)),
{
    reveal_strlit("password");
    reveal_strlit("passphrase");
    reveal_strlit("secret");
    reveal_strlit("private_key");
    reveal_strlit("[redacted]");
    lemma_text_secret();
    lemma_text_private_key();
    lemma_text_passphrase();
    lemma_text_password();
    lemma_text_redacted_lower();
    let t = quoted_entry("secret"@, value);
    let lt = quoted_entry("secret"@, lowered);
    let r = quoted_entry("secret"@, "[REDACTED]"@);
    let lr = quoted_entry("secret"@, "[redacted]"@);
    lemma_entry_shape("secret"@, lowered);
    lemma_entry_shape("secret"@, "[redacted]"@);
    lemma_redact_keys_unfold(t);
    {
        let t = lt;
        assert forall|p: int| 0 <= p && p + "password"@.len() <= "secret"@.len() + 3 implies !#[trigger] occurs_at(t, "password"@, p) by {
            if p == 0 { lemma_mismatch(t, "password"@, 0, 0); } else if p == 1 { lemma_mismatch(t, "password"@, 1, 0); }
        }
        lemma_entry_key_absent("secret"@, lowered, "password"@);
        assert forall|p: int| 0 <= p && p + "passphrase"@.len() <= "secret"@.len() + 3 implies !#[trigger] occurs_at(t, "passphrase"@, p) by {
            
        }
        lemma_entry_key_absent("secret"@, lowered, "passphrase"@);
    }
    lemma_entry_ascii("secret"@, lowered);
    assert(lt.subrange(0, "secret"@.len() as int) =~= "secret"@);
    lemma_key_at_start(lt, "secret"@);
    lemma_entry_redact_value("secret"@, value);
    assert(redact_key(t, "secret"@) == Some(r));
    {
        let t = lr;
        assert forall|p: int| !#[trigger] occurs_at("[redacted]"@, "private_key"@, p) by {
            if 0 <= p && p + "private_key"@.len() <= "[redacted]"@.len() {
                
            }
        }
        assert forall|p: int| 0 <= p && p + "private_key"@.len() <= "secret"@.len() + 3 implies !#[trigger] occurs_at(t, "private_key"@, p) by {
            
        }
        lemma_entry_key_absent("secret"@, "[redacted]"@, "private_key"@);
    }
}

/// The entry `private_key = "value"` comes back with the quoted value replaced
/// by `[REDACTED]`, whatever the value (it holds no `"`), provided that
/// lower-casing the entry gives the same entry with the value lower-cased to
/// the ASCII text `lowered`, and that `lowered` names none of the keys handled
/// before `private_key`.
pub proof fn lemma_private_key_entry_redacted(value: Seq<char>, lowered: Seq<char>)
    requires
        !has_char(value, '"'),
        is_ascii_text(lowered),
        forall|i: int| !#[trigger] occurs_at(lowered, "password"@, i),
        forall|i: int| !#[trigger] occurs_at(lowered, "passphrase"@, i),
        forall|i: int| !#[trigger] occurs_at(lowered, "secret"@, i),
        lowercase(quoted_entry("private_key"@, value)) == quoted_entry("private_key"@, lowered),
    ensures
        redact_spec(quoted_entry("private_key"@, value)) == Some(quoted_entry("private_key"@, "[REDACTED]"@)),
{
    reveal_strlit("password");
    reveal_strlit("passphrase");
    reveal_strlit("secret");
    reveal_strlit("private_key");
    reveal_strlit("[redacted]");
    lemma_text_private_key();
    lemma_text_passphrase();
    lemma_text_password();
    lemma_text_secret();
    lemma_text_redacted_lower();
    let t = quoted_entry("private_key"@, value);
    let lt = quoted_entry("private_key"@, lowered);
    let r = quoted_entry("private_key"@, "[REDACTED]"@);
    let lr = quoted_entry("private_key"@, "[redacted]"@);
    lemma_entry_shape("private_key"@, lowered);
    lemma_entry_shape("private_key"@, "[redacted]"@);
    lemma_redact_keys_unfold(t);
    {
        let t = lt;
        assert forall|p: int| 0 <= p && p + "password"@.len() <= "private_key"@.len() + 3 implies !#[trigger] occurs_at(t, "password"@, p) by {
            if p == 0 { lemma_mismatch(t, "password"@, 0, 1); } else if p == 1 { lemma_mismatch(t, "password"@, 1, 0); } else if p == 2 { lemma_mismatch(t, "password"@, 2, 0); } else if p == 3 { lemma_mismatch(t, "password"@, 3, 0); } else if p == 4 { lemma_mismatch(t, "password"@, 4, 0); } else if p == 5 { lemma_mismatch(t, "password"@, 5, 0); } else if p == 6 { lemma_mismatch(t, "password"@, 6, 0); }
        }
        lemma_entry_key_absent("private_key"@, lowered, "password"@);
        assert forall|p: int| 0 <= p && p + "passphrase"@.len() <= "private_key"@.len() + 3 implies !#[trigger] occurs_at(t, "passphrase"@, p) by {
            if p == 0 { lemma_mismatch(t, "passphrase"@, 0, 1); } else if p == 1 { lemma_mismatch(t, "passphrase"@, 1, 0); } else if p == 2 { lemma_mismatch(t, "passphrase"@, 2, 0); } else if p == 3 { lemma_mismatch(t, "passphrase"@, 3, 0); } else if p == 4 { lemma_mismatch(t, "passphrase"@, 4, 0); }
        }
        lemma_entry_key_absent("private_key"@, lowered, "passphrase"@);
        assert forall|p: int| 0 <= p && p + "secret"@.len() <= "private_key"@.len() + 3 implies !#[trigger] occurs_at(t, "secret"@, p) by {
            if p == 0 { lemma_mismatch(t, "secret"@, 0, 0); } else if p == 1 { lemma_mismatch(t, "secret"@, 1, 0); } else if p == 2 { lemma_mismatch(t, "secret"@, 2, 0); } else if p == 3 { lemma_mismatch(t, "secret"@, 3, 0); } else if p == 4 { lemma_mismatch(t, "secret"@, 4, 0); } else if p == 5 { lemma_mismatch(t, "secret"@, 5, 0); } else if p == 6 { lemma_mismatch(t, "secret"@, 6, 0); } else if p == 7 { lemma_mismatch(t, "secret"@, 7, 0); } else if p == 8 { lemma_mismatch(t, "secret"@, 8, 0); }
        }
        lemma_entry_key_absent("private_key"@, lowered, "secret"@);
    }
    lemma_entry_ascii("private_key"@, lowered);
    assert(lt.subrange(0, "private_key"@.len() as int) =~= "private_key"@);
    lemma_key_at_start(lt, "private_key"@);
    lemma_entry_redact_value("private_key"@, value);
    assert(redact_key(t, "private_key"@) == Some(r));
}

} // verus!
