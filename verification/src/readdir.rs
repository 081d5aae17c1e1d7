use vstd::prelude::*;
use crate::bytes::{read_be_u64, take_span};
use crate::error::DecodeError;
use crate::fields::{
    lemma_parse_padded_name_consumed, parse_opt_flag, parse_padded_name, spec_parse_opt_flag,
    spec_parse_padded_name,
};
use crate::handle::{
    lemma_parse_handle_consumed, parse_nfs3_handle, spec_parse_handle, Nfs3Handle, Nfs3HandleView,
};

verus! {

/// One READDIRPLUS listing row: the entry name and, when present, the
/// child's handle. The file id, cookie and attributes blob are consumed and
/// discarded.
#[derive(Debug, PartialEq)]
pub struct Nfs3ResponseReaddirplusEntryC<'a> {
    pub name_vec: Vec<u8>,
    pub handle: Option<Nfs3Handle<'a>>,
}

#[verifier::ext_equal]
pub ghost struct Nfs3ResponseReaddirplusEntryCView {
    pub name_vec: Seq<u8>,
    pub handle: Option<Nfs3HandleView>,
}

impl View for Nfs3ResponseReaddirplusEntryC<'_> {
    type V = Nfs3ResponseReaddirplusEntryCView;

    open spec fn view(&self) -> Nfs3ResponseReaddirplusEntryCView {
        Nfs3ResponseReaddirplusEntryCView {
            name_vec: self.name_vec@,
            handle: match self.handle {
                Some(h) => Some(h@),
                None => None,
            },
        }
    }
}

impl DeepView for Nfs3ResponseReaddirplusEntryC<'_> {
    type V = Nfs3ResponseReaddirplusEntryCView;

    open spec fn deep_view(&self) -> Nfs3ResponseReaddirplusEntryCView {
        self@
    }
}

/// An entry slot gated by its continuation flag: `entry` is absent exactly
/// when the flag said "no more entries".
#[derive(Debug, PartialEq)]
pub struct Nfs3ResponseReaddirplusEntry<'a> {
    pub entry: Option<Nfs3ResponseReaddirplusEntryC<'a>>,
}

#[verifier::ext_equal]
pub ghost struct Nfs3ResponseReaddirplusEntryView {
    pub entry: Option<Nfs3ResponseReaddirplusEntryCView>,
}

impl View for Nfs3ResponseReaddirplusEntry<'_> {
    type V = Nfs3ResponseReaddirplusEntryView;

    open spec fn view(&self) -> Nfs3ResponseReaddirplusEntryView {
        Nfs3ResponseReaddirplusEntryView {
            entry: match self.entry {
                Some(e) => Some(e@),
                None => None,
            },
        }
    }
}

/// Layout of one listing entry: an eight-byte file id (discarded), a padded
/// name, an eight-byte cookie (discarded), a {0,1} flag gating an 84-byte
/// attributes blob (discarded), and a {0,1} flag gating the child handle.
pub open spec fn spec_parse_entry(s: Seq<u8>) -> Result<
    (nat, Nfs3ResponseReaddirplusEntryCView),
    DecodeError,
> {
    if s.len() < 8 {
        Err(DecodeError::Incomplete)
    } else {
        let t = s.skip(8);
        match spec_parse_padded_name(t) {
            Err(e) => Err(e),
            Ok((n1, name)) => {
                let u = t.skip(n1 as int);
                if u.len() < 8 {
                    Err(DecodeError::Incomplete)
                } else {
                    match spec_parse_opt_flag(u.skip(8)) {
                        Err(e) => Err(e),
                        Ok((_, attr_follows)) => {
                            let attr: nat = if attr_follows {
                                84
                            } else {
                                0
                            };
                            let v = u.skip(12);
                            if v.len() < attr {
                                Err(DecodeError::Incomplete)
                            } else {
                                match spec_parse_opt_flag(v.skip(attr as int)) {
                                    Err(e) => Err(e),
                                    Ok((_, handle_follows)) => {
                                        let w = v.skip(attr as int + 4);
                                        if !handle_follows {
                                            Ok(
                                                (
                                                    (8 + n1 + 12 + attr + 4) as nat,
                                                    Nfs3ResponseReaddirplusEntryCView {
                                                        name_vec: name,
                                                        handle: None,
                                                    },
                                                ),
                                            )
                                        } else {
                                            match spec_parse_handle(w) {
                                                Err(e) => Err(e),
                                                Ok((n2, h)) => Ok(
                                                    (
                                                        (8 + n1 + 12 + attr + 4 + n2) as nat,
                                                        Nfs3ResponseReaddirplusEntryCView {
                                                            name_vec: name,
                                                            handle: Some(h),
                                                        },
                                                    ),
                                                ),
                                            }
                                        }
                                    },
                                }
                            }
                        },
                    }
                }
            },
        }
    }
}

/// A successful entry decode consumes at least one byte and at most the
/// buffer.
pub proof fn lemma_parse_entry_consumed(s: Seq<u8>)
    ensures
        spec_parse_entry(s) matches Ok((n, e)) ==> 1 <= n <= s.len(),
{
    if s.len() >= 8 {
        let t = s.skip(8);
        lemma_parse_padded_name_consumed(t);
        match spec_parse_padded_name(t) {
            Err(_) => (),
            Ok((n1, name)) => {
                let u = t.skip(n1 as int);
                if u.len() >= 8 {
                    match spec_parse_opt_flag(u.skip(8)) {
                        Err(_) => (),
                        Ok((_, attr_follows)) => {
                            let attr: nat = if attr_follows {
                                84
                            } else {
                                0
                            };
                            let v = u.skip(12);
                            if v.len() >= attr {
                                match spec_parse_opt_flag(v.skip(attr as int)) {
                                    Err(_) => (),
                                    Ok((_, handle_follows)) => {
                                        let w = v.skip(attr as int + 4);
                                        lemma_parse_handle_consumed(w);
                                    },
                                }
                            }
                        },
                    }
                }
            },
        }
    }
}

/// Layout of one gated entry slot: a {0,1} continuation flag, then — only
/// when the flag is 1 — an entry.
pub open spec fn spec_parse_entry_cond(s: Seq<u8>) -> Result<
    (nat, Option<Nfs3ResponseReaddirplusEntryCView>),
    DecodeError,
> {
    match spec_parse_opt_flag(s) {
        Err(e) => Err(e),
        Ok((_, follows)) => {
            if !follows {
                Ok((4, None))
            } else {
                match spec_parse_entry(s.skip(4)) {
                    Err(e) => Err(e),
                    Ok((n, e)) => Ok(((4 + n) as nat, Some(e))),
                }
            }
        },
    }
}

/// A successful gated-slot decode consumes at least the flag and at most the
/// buffer.
pub proof fn lemma_parse_entry_cond_consumed(s: Seq<u8>)
    ensures
        spec_parse_entry_cond(s) matches Ok((n, e)) ==> 4 <= n <= s.len(),
{
    lemma_parse_entry_consumed(s.skip(4));
}

/// The entry sequence a READDIRPLUS entries buffer holds, with the total
/// count of consumed bytes. Entries accumulate while each continuation flag
/// is 1; the first 0 flag ends the sequence (its four bytes are consumed,
/// nothing after them). A slot that fails to decode ends the sequence at the
/// point where that slot began.
pub open spec fn spec_parse_entries(s: Seq<u8>) -> (Seq<Nfs3ResponseReaddirplusEntryCView>, nat)
    decreases s.len(),
{
    match spec_parse_entry_cond(s) {
        Err(_) => (Seq::empty(), 0),
        Ok((n, slot)) => match slot {
            None => (Seq::empty(), n),
            Some(e) => {
                if 0 < n <= s.len() {
                    let (more, m) = spec_parse_entries(s.skip(n as int));
                    (seq![e] + more, (n + m) as nat)
                } else {
                    (Seq::empty(), 0)
                }
            },
        },
    }
}

/// The entry sequence never consumes more than the buffer holds.
pub proof fn lemma_parse_entries_consumed(s: Seq<u8>)
    ensures
        spec_parse_entries(s).1 <= s.len(),
    decreases s.len(),
{
    lemma_parse_entry_cond_consumed(s);
    match spec_parse_entry_cond(s) {
        Err(_) => (),
        Ok((n, slot)) => match slot {
            None => (),
            Some(e) => {
                if 0 < n <= s.len() {
                    lemma_parse_entries_consumed(s.skip(n as int));
                }
            },
        },
    }
}

/// Law: a buffer holding flag 1, an entry, flag 1, an entry, then flag 0
/// decodes to exactly those two entries and stops at the terminal flag,
/// leaving every byte after it untouched.
pub proof fn lemma_entries_two_then_sentinel(s: Seq<u8>)
    requires
        spec_parse_entry_cond(s) matches Ok((n1, slot1)) && slot1 is Some,
        spec_parse_entry_cond(s.skip(spec_parse_entry_cond(s)->Ok_0.0 as int)) matches Ok(
            (n2, slot2),
        ) && slot2 is Some,
        ({
            let n1 = spec_parse_entry_cond(s)->Ok_0.0;
            let n2 = spec_parse_entry_cond(s.skip(n1 as int))->Ok_0.0;
            spec_parse_entry_cond(s.skip(n1 as int).skip(n2 as int)) matches Ok((n3, slot3))
                && slot3 is None
        }),
    ensures
        ({
            let n1 = spec_parse_entry_cond(s)->Ok_0.0;
            let e1 = spec_parse_entry_cond(s)->Ok_0.1->Some_0;
            let n2 = spec_parse_entry_cond(s.skip(n1 as int))->Ok_0.0;
            let e2 = spec_parse_entry_cond(s.skip(n1 as int))->Ok_0.1->Some_0;
            let n3 = spec_parse_entry_cond(s.skip(n1 as int).skip(n2 as int))->Ok_0.0;
            spec_parse_entries(s).0 == seq![e1, e2] && spec_parse_entries(s).1 == n1 + n2 + n3
        }),
{
    let n1 = spec_parse_entry_cond(s)->Ok_0.0;
    let e1 = spec_parse_entry_cond(s)->Ok_0.1->Some_0;
    let t = s.skip(n1 as int);
    let n2 = spec_parse_entry_cond(t)->Ok_0.0;
    let e2 = spec_parse_entry_cond(t)->Ok_0.1->Some_0;
    let u = t.skip(n2 as int);
    let n3 = spec_parse_entry_cond(u)->Ok_0.0;
    lemma_parse_entry_cond_consumed(s);
    lemma_parse_entry_cond_consumed(t);
    lemma_parse_entry_cond_consumed(u);
    assert(spec_parse_entries(u).0 =~= Seq::<Nfs3ResponseReaddirplusEntryCView>::empty());
    assert(spec_parse_entries(t).0 =~= seq![e2]);
    assert(spec_parse_entries(s).0 =~= seq![e1, e2]);
}

/// Decodes one listing entry (without its continuation flag) from the front
/// of `i`.
pub fn parse_nfs3_response_readdirplus_entry<'a>(i: &'a [u8]) -> (r: Result<
    (Nfs3ResponseReaddirplusEntryC<'a>, &'a [u8]),
    DecodeError,
>)
    ensures
        (match spec_parse_entry(i@) {
            Ok((n, v)) => r matches Ok((rec, rest)) && rec@ == v && rest@ == i@.skip(n as int),
            Err(e) => r matches Err(e2) && e2 == e,
        }),
{
    match read_be_u64(i) {
        Err(e) => Err(e),
        Ok((_file_id, t)) => {
            match parse_padded_name(t) {
                Err(e) => Err(e),
                Ok((_name_len, name_vec, u)) => {
                    match take_span(u, 8) {
                        None => Err(DecodeError::Incomplete),
                        Some((_cookie, u2)) => {
                            match parse_opt_flag(u2) {
                                Err(e) => Err(e),
                                Ok((attr_follows, v0)) => {
                                    let attr: usize = if attr_follows {
                                        84
                                    } else {
                                        0
                                    };
                                    proof {
                                        let n1 = spec_parse_padded_name(i@.skip(8))->Ok_0.0;
                                        assert(v0@ =~= i@.skip(8).skip(n1 as int).skip(12));
                                    }
                                    match take_span(v0, attr) {
                                        None => Err(DecodeError::Incomplete),
                                        Some((_attr_blob, v1)) => {
                                            match parse_opt_flag(v1) {
                                                Err(e) => Err(e),
                                                Ok((handle_follows, w)) => {
                                                    proof {
                                                        let n1 = spec_parse_padded_name(
                                                            i@.skip(8),
                                                        )->Ok_0.0;
                                                        let v = i@.skip(8).skip(n1 as int).skip(
                                                            12,
                                                        );
                                                        assert(w@ =~= v.skip(attr as int + 4));
                                                        assert(w@ =~= i@.skip(
                                                            8 + n1 as int + 12 + attr as int + 4,
                                                        ));
                                                    }
                                                    if !handle_follows {
                                                        Ok(
                                                            (
                                                                Nfs3ResponseReaddirplusEntryC {
                                                                    name_vec,
                                                                    handle: None,
                                                                },
                                                                w,
                                                            ),
                                                        )
                                                    } else {
                                                        match parse_nfs3_handle(w) {
                                                            Err(e) => Err(e),
                                                            Ok((handle, rest)) => {
                                                                proof {
                                                                    let n1 =
                                                                        spec_parse_padded_name(
                                                                        i@.skip(8),
                                                                    )->Ok_0.0;
                                                                    let n2 = spec_parse_handle(
                                                                        w@,
                                                                    )->Ok_0.0;
                                                                    assert(rest@ =~= i@.skip(
                                                                        8 + n1 as int + 12
                                                                            + attr as int + 4
                                                                            + n2 as int,
                                                                    ));
                                                                }
                                                                Ok(
                                                                    (
                                                                        Nfs3ResponseReaddirplusEntryC {
                                                                            name_vec,
                                                                            handle: Some(handle),
                                                                        },
                                                                        rest,
                                                                    ),
                                                                )
                                                            },
                                                        }
                                                    }
                                                },
                                            }
                                        },
                                    }
                                },
                            }
                        },
                    }
                },
            }
        },
    }
}

/// Decodes one gated entry slot — the continuation flag and, when it is 1,
/// the entry — from the front of `i`.
pub fn parse_nfs3_response_readdirplus_entry_cond<'a>(i: &'a [u8]) -> (r: Result<
    (Nfs3ResponseReaddirplusEntry<'a>, &'a [u8]),
    DecodeError,
>)
    ensures
        (match spec_parse_entry_cond(i@) {
            Ok((n, slot)) => r matches Ok((rec, rest)) && rec@.entry == slot && rest@ == i@.skip(
                n as int,
            ),
            Err(e) => r matches Err(e2) && e2 == e,
        }),
{
    match parse_opt_flag(i) {
        Err(e) => Err(e),
        Ok((follows, t)) => {
            if !follows {
                Ok((Nfs3ResponseReaddirplusEntry { entry: None }, t))
            } else {
                match parse_nfs3_response_readdirplus_entry(t) {
                    Err(e) => Err(e),
                    Ok((entry, rest)) => {
                        proof {
                            let n = spec_parse_entry(i@.skip(4))->Ok_0.0;
                            assert(rest@ =~= i@.skip(4 + n as int));
                        }
                        Ok((Nfs3ResponseReaddirplusEntry { entry: Some(entry) }, rest))
                    },
                }
            }
        },
    }
}

/// Decodes the self-terminating entry sequence of a READDIRPLUS reply,
/// iteratively: entries accumulate while each continuation flag is 1, the
/// first 0 flag ends the walk, and a slot that fails to decode ends it with
/// the remainder positioned where that slot began. Entry counts are
/// attacker-influenced, so the walk is a loop, never recursion.
pub fn parse_nfs3_response_readdirplus_entries<'a>(i: &'a [u8]) -> (r: (
    Vec<Nfs3ResponseReaddirplusEntryC<'a>>,
    &'a [u8],
))
    ensures
        r.0.deep_view() == spec_parse_entries(i@).0,
        r.1@ == i@.skip(spec_parse_entries(i@).1 as int),
        spec_parse_entries(i@).1 <= i@.len(),
{
    proof {
        lemma_parse_entries_consumed(i@);
    }
    let mut out: Vec<Nfs3ResponseReaddirplusEntryC<'a>> = Vec::new();
    let mut cur: &'a [u8] = i;
    let ghost mut k: nat = 0;
    loop
        invariant
            k <= i@.len(),
            cur@ == i@.skip(k as int),
            spec_parse_entries(i@).0 == out.deep_view() + spec_parse_entries(cur@).0,
            spec_parse_entries(i@).1 == k + spec_parse_entries(cur@).1,
        decreases cur@.len(),
    {
        proof {
            lemma_parse_entry_cond_consumed(cur@);
        }
        match parse_nfs3_response_readdirplus_entry_cond(cur) {
            Err(_) => {
                proof {
                    assert(out.deep_view() + spec_parse_entries(cur@).0 =~= out.deep_view());
                }
                return (out, cur);
            },
            Ok((rec, rest)) => {
                let ghost n = spec_parse_entry_cond(cur@)->Ok_0.0;
                match rec.entry {
                    None => {
                        proof {
                            assert(out.deep_view() + spec_parse_entries(cur@).0 =~= out.deep_view());
                            assert(rest@ =~= i@.skip(k as int + n as int));
                        }
                        return (out, rest);
                    },
                    Some(e) => {
                        let ghost old_out = out.deep_view();
                        let ghost old_cur = cur@;
                        out.push(e);
                        cur = rest;
                        proof {
                            k = (k + n) as nat;
                            assert(cur@ =~= i@.skip(k as int));
                            assert(out.deep_view() =~= old_out + seq![e@]);
                            assert(old_out + spec_parse_entries(old_cur).0 =~= out.deep_view()
                                + spec_parse_entries(cur@).0);
                        }
                    },
                }
            },
        }
    }
}

} // verus!
