//! Header normalization: turns a raw protocol fetch record (envelope, unique
//! identifier, arrival date, optional text part) into a stable,
//! application-facing `EmailHeader`.
//!
//! Rules: the From field joins every address entry's decoded `"Name <mailbox>"`
//! form with `;`, silently dropping entries whose bytes are not valid UTF-8;
//! the subject degrades to the empty string when undecodable; the arrival date
//! is passed through verbatim; and the presence of identifier, envelope,
//! arrival date, subject and sender list is mandatory — a missing one fails
//! the whole record with `UnspecifiedParameter`.

use vstd::prelude::*;
use crate::error::GmailError;

verus! {

/// Stable, protocol-assigned unique identifier of a message, distinct from
/// its transient sequence number.
pub type Uid = u32;

/// One sender entry of an envelope, as raw protocol bytes.
pub struct Address {
    pub name: Option<Vec<u8>>,
    pub mailbox: Option<Vec<u8>>,
}

/// The envelope fields of a fetch response that header normalization reads.
pub struct Envelope {
    pub subject: Option<Vec<u8>>,
    pub from: Option<Vec<Address>>,
}

/// One raw fetch response record: each field is present only if the server
/// answered the corresponding query item.
pub struct FetchRecord {
    pub uid: Option<Uid>,
    pub internal_date: Option<String>,
    pub envelope: Option<Envelope>,
    pub text: Option<Vec<u8>>,
}

/// Normalized, decoded view of one message.
#[derive(Debug)]
pub struct EmailHeader {
    pub from: String,
    pub date: String,
    pub subject: String,
    pub uid: Uid,
}

/// What `String::from_utf8` returns for the given bytes: `Some` of the
/// decoded characters exactly on valid UTF-8 input, `None` otherwise.
pub uninterp spec fn utf8_decode(bytes: Seq<u8>) -> Option<Seq<char>>;

/// Relies on `String::from_utf8`: decoding succeeds exactly on valid UTF-8
/// byte sequences, and the result is a function of the bytes alone.
#[verifier::external_body]
pub fn parse(buf: &[u8]) -> (r: Result<String, std::string::FromUtf8Error>)
    ensures
        r is Ok <==> utf8_decode(buf@) is Some,
        r matches Ok(s) ==> utf8_decode(buf@) == Some(s@),
{
    String::from_utf8(buf.to_vec())
}

/// The decoded `"Name <mailbox>"` form of one address entry, or `None` when
/// its name or mailbox bytes are not valid UTF-8. An absent name or mailbox
/// reads as empty bytes, which decode to the empty string.
pub open spec fn spec_parse_address(a: Address) -> Option<Seq<char>> {
    let name = match a.name {
        Some(v) => utf8_decode(v@),
        None => Some(Seq::<char>::empty()),
    };
    let mailbox = match a.mailbox {
        Some(v) => utf8_decode(v@),
        None => Some(Seq::<char>::empty()),
    };
    match (name, mailbox) {
        (Some(n), Some(m)) => Some(n + " <"@ + m + ">"@),
        _ => None,
    }
}

/// The decoded forms of the address entries that decode, in order: invalid
/// entries are dropped, not errors.
pub open spec fn spec_from_list(addrs: Seq<Address>) -> Seq<Seq<char>>
    decreases addrs.len(),
{
    if addrs.len() == 0 {
        Seq::<Seq<char>>::empty()
    } else {
        match spec_parse_address(addrs[0]) {
            Some(s) => seq![s] + spec_from_list(addrs.drop_first()),
            None => spec_from_list(addrs.drop_first()),
        }
    }
}

/// Semicolon-join of the decoded address entries.
pub open spec fn join_semi(parts: Seq<Seq<char>>) -> Seq<char>
    decreases parts.len(),
{
    if parts.len() == 0 {
        Seq::<char>::empty()
    } else if parts.len() == 1 {
        parts[0]
    } else {
        parts[0] + ";"@ + join_semi(parts.drop_first())
    }
}

/// The subject: UTF-8 decoded, with undecodable bytes degrading to the empty
/// string rather than failing the record.
pub open spec fn spec_subject(bytes: Seq<u8>) -> Seq<char> {
    match utf8_decode(bytes) {
        Some(s) => s,
        None => Seq::<char>::empty(),
    }
}

/// Whether a raw record carries everything a header needs: arrival date,
/// envelope, identifier, and within the envelope a subject and a sender list.
pub open spec fn spec_header_ok(f: FetchRecord) -> bool {
    &&& f.internal_date is Some
    &&& f.uid is Some
    &&& f.envelope matches Some(env) && env.subject is Some && env.from is Some
}

/// How a normalized header relates to the raw record it came from.
pub open spec fn spec_header_matches(f: FetchRecord, h: EmailHeader) -> bool {
    &&& spec_header_ok(f)
    &&& f.uid matches Some(u) && h.uid == u
    &&& f.internal_date matches Some(d) && h.date@ == d@
    &&& f.envelope matches Some(env) && (env.subject matches Some(sb) && h.subject@
        == spec_subject(sb@)) && (env.from matches Some(fr) && h.from@ == join_semi(
        spec_from_list(fr@),
    ))
}

/// Which missing-field failure an incomplete record produces: the fields are
/// checked in the order arrival date, envelope, identifier, subject, sender
/// list, and the first absent one names the failure.
pub open spec fn spec_header_err_matches(f: FetchRecord, e: GmailError) -> bool {
    match (f.internal_date, f.envelope, f.uid) {
        (None, _, _) => e matches GmailError::UnspecifiedParameter(p) && p@ == "INTERNALDATE"@,
        (Some(_), None, _) => e matches GmailError::UnspecifiedParameter(p) && p@ == "ENVELOPE"@,
        (Some(_), Some(_), None) => e matches GmailError::UnspecifiedParameter(p) && p@ == "UID"@,
        (Some(_), Some(env), Some(_)) => if env.subject is None {
            e matches GmailError::UnspecifiedParameter(p) && p@ == "SUBJECT"@
        } else if env.from is None {
            e matches GmailError::UnspecifiedParameter(p) && p@ == "FROM"@
        } else {
            false
        },
    }
}

/// The decoded `"Name <mailbox>"` form of one address entry, or `None` when
/// its name or mailbox bytes are not valid UTF-8 (the entry is then dropped
/// from the From join, not an error).
pub fn parse_address(address: &Address) -> (r: Option<String>)
    ensures
        r is Some <==> spec_parse_address(*address) is Some,
        r matches Some(s) ==> spec_parse_address(*address) == Some(s@),
{
    let name: String = match &address.name {
        Some(v) => match parse(v.as_slice()) {
            Ok(s) => s,
            Err(_) => {
                return None;
            },
        },
        None => String::new(),
    };
    let mailbox: String = match &address.mailbox {
        Some(v) => match parse(v.as_slice()) {
            Ok(s) => s,
            Err(_) => {
                return None;
            },
        },
        None => String::new(),
    };
    let mut out = name;
    out.append(" <");
    out.append(mailbox.as_str());
    out.append(">");
    Some(out)
}

/// Extending the decoded-entry list by one more raw entry.
proof fn lemma_spec_from_list_snoc(addrs: Seq<Address>, i: int)
    requires
        0 <= i < addrs.len(),
    ensures
        spec_from_list(addrs.take(i + 1)) == spec_from_list(addrs.take(i)) + (
        match spec_parse_address(addrs[i]) {
            Some(s) => seq![s],
            None => Seq::<Seq<char>>::empty(),
        }),
    decreases i,
{
    let pre = addrs.take(i + 1);
    assert(pre[0] == addrs[0]);
    if i == 0 {
        assert(pre.len() == 1);
        assert(pre.drop_first() =~= Seq::<Address>::empty());
        assert(spec_from_list(Seq::<Address>::empty()) == Seq::<Seq<char>>::empty());
        assert(spec_from_list(pre.drop_first()) == Seq::<Seq<char>>::empty());
        assert(addrs.take(0) =~= Seq::<Address>::empty());
        assert(spec_from_list(addrs.take(0)) == Seq::<Seq<char>>::empty());
        match spec_parse_address(addrs[0]) {
            Some(s) => {
                assert(spec_from_list(pre) == seq![s] + Seq::<Seq<char>>::empty());
                assert(seq![s] + Seq::<Seq<char>>::empty() =~= seq![s]);
                assert(Seq::<Seq<char>>::empty() + seq![s] =~= seq![s]);
            },
            None => {
                assert(spec_from_list(pre) == Seq::<Seq<char>>::empty());
                assert(Seq::<Seq<char>>::empty() + Seq::<Seq<char>>::empty() =~= Seq::<
                    Seq<char>,
                >::empty());
            },
        }
    } else {
        lemma_spec_from_list_snoc(addrs.drop_first(), i - 1);
        assert(pre.drop_first() =~= addrs.drop_first().take(i));
        assert(addrs.take(i).drop_first() =~= addrs.drop_first().take(i - 1));
        assert(addrs.drop_first()[i - 1] == addrs[i]);
        assert(addrs.take(i)[0] == addrs[0]);
        assert(addrs.take(i).len() == i);
        match spec_parse_address(addrs[0]) {
            Some(s0) => {
                assert(spec_from_list(pre) == seq![s0] + spec_from_list(addrs.drop_first().take(i)));
                assert(spec_from_list(addrs.take(i)) == seq![s0] + spec_from_list(
                    addrs.drop_first().take(i - 1),
                ));
                match spec_parse_address(addrs[i]) {
                    Some(s) => {
                        assert(seq![s0] + (spec_from_list(addrs.drop_first().take(i - 1))
                            + seq![s]) =~= (seq![s0] + spec_from_list(
                            addrs.drop_first().take(i - 1),
                        )) + seq![s]);
                    },
                    None => {
                        assert(spec_from_list(addrs.take(i)) + Seq::<Seq<char>>::empty()
                            =~= spec_from_list(addrs.take(i)));
                    },
                }
            },
            None => {
                assert(spec_from_list(pre) == spec_from_list(addrs.drop_first().take(i)));
                assert(spec_from_list(addrs.take(i)) == spec_from_list(
                    addrs.drop_first().take(i - 1),
                ));
                match spec_parse_address(addrs[i]) {
                    Some(_) => {},
                    None => {
                        assert(spec_from_list(addrs.take(i)) + Seq::<Seq<char>>::empty()
                            =~= spec_from_list(addrs.take(i)));
                    },
                }
            },
        }
    }
}

/// Joining one more decoded entry onto an already-joined prefix.
proof fn lemma_join_semi_snoc(parts: Seq<Seq<char>>, j: int)
    requires
        0 <= j < parts.len(),
    ensures
        join_semi(parts.take(j + 1)) == if j == 0 {
            parts[0]
        } else {
            join_semi(parts.take(j)) + ";"@ + parts[j]
        },
    decreases j,
{
    let pre = parts.take(j + 1);
    assert(pre[0] == parts[0]);
    if j == 0 {
        assert(pre.len() == 1);
        assert(join_semi(pre) == pre[0]);
    } else {
        lemma_join_semi_snoc(parts.drop_first(), j - 1);
        assert(pre.drop_first() =~= parts.drop_first().take(j));
        assert(parts.take(j).drop_first() =~= parts.drop_first().take(j - 1));
        assert(parts.drop_first()[j - 1] == parts[j]);
        assert(parts.take(j)[0] == parts[0]);
        assert(parts.take(j).len() == j);
        if j == 1 {
            assert(join_semi(pre) == parts[0] + ";"@ + join_semi(parts.drop_first().take(1)));
            assert(parts.drop_first().take(1).len() == 1);
            assert(join_semi(parts.drop_first().take(1)) == parts.drop_first().take(1)[0]);
            assert(parts.drop_first().take(1)[0] == parts[1]);
            assert(join_semi(parts.take(1)) == parts[0]);
        } else {
            assert(join_semi(pre) == parts[0] + ";"@ + join_semi(parts.drop_first().take(j)));
            assert(join_semi(parts.drop_first().take(j)) == join_semi(
                parts.drop_first().take(j - 1),
            ) + ";"@ + parts[j]);
            assert(join_semi(parts.take(j)) == parts[0] + ";"@ + join_semi(
                parts.drop_first().take(j - 1),
            ));
            assert(parts[0] + ";"@ + (join_semi(parts.drop_first().take(j - 1)) + ";"@ + parts[j])
                =~= (parts[0] + ";"@ + join_semi(parts.drop_first().take(j - 1))) + ";"@
                + parts[j]);
        }
    }
}

/// The From field: every address entry that decodes, as `"Name <mailbox>"`,
/// joined with `;`.
fn join_addresses(addrs: &Vec<Address>) -> (r: String)
    ensures
        r@ == join_semi(spec_from_list(addrs@)),
{
    let mut parts: Vec<String> = Vec::new();
    let mut i: usize = 0;
    while i < addrs.len()
        invariant
            i <= addrs@.len(),
            parts@.map_values(|s: String| s@) =~= spec_from_list(addrs@.take(i as int)),
        decreases addrs@.len() - i,
    {
        let ghost old_parts = parts@;
        match parse_address(&addrs[i]) {
            Some(s) => {
                parts.push(s);
                proof {
                    assert(parts@.map_values(|s: String| s@) =~= old_parts.map_values(
                        |s: String| s@,
                    ).push(parts@[parts@.len() - 1]@));
                }
            },
            None => {},
        }
        proof {
            lemma_spec_from_list_snoc(addrs@, i as int);
            assert(parts@.map_values(|s: String| s@) =~= spec_from_list(
                addrs@.take(i as int + 1),
            ));
        }
        i = i + 1;
    }
    proof {
        assert(addrs@.take(addrs@.len() as int) =~= addrs@);
    }
    let mut out = String::new();
    let mut j: usize = 0;
    while j < parts.len()
        invariant
            j <= parts@.len(),
            parts@.map_values(|s: String| s@) =~= spec_from_list(addrs@),
            out@ == join_semi(parts@.map_values(|s: String| s@).take(j as int)),
        decreases parts@.len() - j,
    {
        if j > 0 {
            out.append(";");
        }
        out.append(parts[j].as_str());
        proof {
            lemma_join_semi_snoc(parts@.map_values(|s: String| s@), j as int);
            assert(parts@.map_values(|s: String| s@)[j as int] == parts@[j as int]@);
        }
        j = j + 1;
    }
    proof {
        assert(parts@.map_values(|s: String| s@).take(parts@.len() as int) =~= parts@.map_values(
            |s: String| s@,
        ));
    }
    out
}

/// Builds the normalized header for one raw record. Fails with
/// `UnspecifiedParameter` naming the first absent mandatory field (arrival
/// date, envelope, identifier, subject, sender list, in that order); never
/// returns a partially populated header.
pub fn create_email_header(fetch: &FetchRecord) -> (r: Result<EmailHeader, GmailError>)
    ensures
        r is Ok <==> spec_header_ok(*fetch),
        r matches Ok(h) ==> spec_header_matches(*fetch, h),
        r matches Err(e) ==> spec_header_err_matches(*fetch, e),
{
    let date: String = match &fetch.internal_date {
        Some(d) => d.clone(),
        None => {
            return Err(GmailError::UnspecifiedParameter("INTERNALDATE"));
        },
    };
    let env: &Envelope = match &fetch.envelope {
        Some(e) => e,
        None => {
            return Err(GmailError::UnspecifiedParameter("ENVELOPE"));
        },
    };
    let uid: Uid = match fetch.uid {
        Some(u) => u,
        None => {
            return Err(GmailError::UnspecifiedParameter("UID"));
        },
    };
    let subject: String = match &env.subject {
        Some(b) => match parse(b.as_slice()) {
            Ok(s) => s,
            Err(_) => String::new(),
        },
        None => {
            return Err(GmailError::UnspecifiedParameter("SUBJECT"));
        },
    };
    let from: String = match &env.from {
        Some(list) => join_addresses(list),
        None => {
            return Err(GmailError::UnspecifiedParameter("FROM"));
        },
    };
    Ok(EmailHeader { from, date, subject, uid })
}

/// Normalizes a whole fetch response, newest first: the raw records arrive
/// oldest first, so the output reverses their order. The first record that
/// lacks a mandatory field (scanning newest first) fails the whole call.
pub fn headers_from_fetch(records: &Vec<FetchRecord>) -> (r: Result<Vec<EmailHeader>, GmailError>)
    ensures
        r is Ok <==> (forall|k: int|
            0 <= k < records@.len() ==> spec_header_ok(#[trigger] records@[k])),
        r matches Ok(hs) ==> hs@.len() == records@.len() && (forall|k: int|
            0 <= k < hs@.len() ==> spec_header_matches(
                records@[records@.len() - 1 - k],
                #[trigger] hs@[k],
            )),
        r matches Err(e) ==> exists|j: int|
            0 <= j < records@.len() && !spec_header_ok(#[trigger] records@[j]) && (forall|k: int|
                j < k < records@.len() ==> spec_header_ok(#[trigger] records@[k]))
                && spec_header_err_matches(records@[j], e),
{
    let mut out: Vec<EmailHeader> = Vec::new();
    let mut i: usize = records.len();
    while i > 0
        invariant
            i <= records@.len(),
            out@.len() == records@.len() - i,
            forall|k: int|
                0 <= k < out@.len() ==> spec_header_matches(
                    records@[records@.len() - 1 - k],
                    #[trigger] out@[k],
                ),
            forall|k: int| i <= k < records@.len() ==> spec_header_ok(#[trigger] records@[k]),
        decreases i,
    {
        i = i - 1;
        match create_email_header(&records[i]) {
            Ok(h) => out.push(h),
            Err(e) => {
                return Err(e);
            },
        }
    }
    Ok(out)
}

} // verus!
