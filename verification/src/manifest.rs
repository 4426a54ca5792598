//! Construction of the deployment manifest document.
//!
//! The manifest is a JSON document listing every file's relative path,
//! content digest and raw size, together with the fixed deployment
//! metadata.  It never embeds the transport payload.  Building it is a
//! pure transformation, so re-serializing the same inputs yields
//! byte-identical output.

use vstd::prelude::*;
use crate::content::FileDescriptor;
use crate::hex::hex_digit;
use crate::bytes::append_bytes;

verus! {

use vstd::string::StringSliceAdditionalSpecFns;
use vstd::string::StrSliceExecFns;

/// The UTF-8 bytes of a string literal.
pub open spec fn lit_bytes(s: &str) -> Seq<u8> {
    s.spec_bytes()
}

/// The decimal rendering of a number, most significant digit first.
pub open spec fn dec_bytes(n: nat) -> Seq<u8>
    decreases n,
{
    if n < 10 {
        seq![(n + 48) as u8]
    } else {
        dec_bytes(n / 10) + seq![(n % 10 + 48) as u8]
    }
}

/// How one byte of a string is rendered inside a JSON string: quote and
/// backslash are escaped, control bytes become `\u00..`, and every other
/// byte passes through unchanged.
pub open spec fn json_escape_byte(b: u8) -> Seq<u8> {
    if b == 34 {
        seq![92u8, 34u8]
    } else if b == 92 {
        seq![92u8, 92u8]
    } else if b < 32 {
        seq![92u8, 117u8, 48u8, 48u8, hex_digit(b / 16), hex_digit(b % 16)]
    } else {
        seq![b]
    }
}

/// The JSON-escaped rendering of a byte string.
pub open spec fn json_escaped(s: Seq<u8>) -> Seq<u8>
    decreases s.len(),
{
    if s.len() == 0 {
        Seq::<u8>::empty()
    } else {
        json_escape_byte(s[0]) + json_escaped(s.drop_first())
    }
}

/// The manifest entry for one file: its escaped path, its digest and its
/// raw size.
pub open spec fn file_entry_json(d: FileDescriptor) -> Seq<u8> {
    lit_bytes("{\"file\":\"") + json_escaped(d.relative_path@) + lit_bytes("\",\"sha\":\"")
        + d.content_digest@ + lit_bytes("\",\"size\":") + dec_bytes(d.size_bytes as nat)
        + lit_bytes("}")
}

/// The comma-separated manifest entries, in input order.
pub open spec fn files_array_json(files: Seq<FileDescriptor>) -> Seq<u8>
    decreases files.len(),
{
    if files.len() == 0 {
        Seq::<u8>::empty()
    } else if files.len() == 1 {
        file_entry_json(files[0])
    } else {
        file_entry_json(files[0]) + lit_bytes(",") + files_array_json(files.drop_first())
    }
}

/// The whole manifest document for a project name and a file list.
pub open spec fn manifest_json(name: Seq<u8>, files: Seq<FileDescriptor>) -> Seq<u8> {
    lit_bytes("{\"version\":2,\"name\":\"") + json_escaped(name) + lit_bytes(
        "\",\"builds\":[{\"src\":\"**/*\",\"use\":\"@now/static\"}],\"files\":[",
    ) + files_array_json(files) + lit_bytes(
        "],\"target\":\"staging\",\"meta\":{\"imported\":\"true\"}}",
    )
}

/// Appends a literal's UTF-8 bytes.
fn push_literal(out: &mut Vec<u8>, s: &str)
    ensures
        final(out)@ == old(out)@ + lit_bytes(s),
{
    let bytes = s.as_bytes_vec();
    append_bytes(out, &bytes);
}

/// Appends the decimal rendering of `n`.
fn push_dec(out: &mut Vec<u8>, n: usize)
    ensures
        final(out)@ == old(out)@ + dec_bytes(n as nat),
    decreases n,
{
    if n < 10 {
        out.push((n as u8) + 48);
        proof {
            assert(old(out)@.push(((n as nat) + 48) as u8) =~= old(out)@ + dec_bytes(n as nat));
        }
    } else {
        push_dec(out, n / 10);
        out.push((n % 10) as u8 + 48);
        proof {
            assert(old(out)@ + dec_bytes((n / 10) as nat) + seq![((n as nat) % 10 + 48) as u8]
                =~= old(out)@ + dec_bytes(n as nat));
            assert((old(out)@ + dec_bytes((n / 10) as nat)).push(((n as nat) % 10 + 48) as u8)
                =~= old(out)@ + dec_bytes((n / 10) as nat) + seq![((n as nat) % 10 + 48) as u8]);
        }
    }
}

proof fn lemma_json_escaped_push(s: Seq<u8>, b: u8)
    ensures
        json_escaped(s.push(b)) == json_escaped(s) + json_escape_byte(b),
    decreases s.len(),
{
    if s.len() == 0 {
        assert(s.push(b)[0] == b);
        assert(s.push(b).drop_first() =~= Seq::<u8>::empty());
        assert(json_escaped(Seq::<u8>::empty()) == Seq::<u8>::empty());
        assert(json_escaped(s) == Seq::<u8>::empty());
        assert(json_escaped(s.push(b)) =~= json_escaped(s) + json_escape_byte(b));
    } else {
        lemma_json_escaped_push(s.drop_first(), b);
        assert(s.push(b)[0] == s[0]);
        assert(s.push(b).drop_first() =~= s.drop_first().push(b));
        assert(json_escaped(s.push(b)) =~= json_escaped(s) + json_escape_byte(b));
    }
}

/// Appends the JSON-escaped rendering of `text`.
fn push_escaped(out: &mut Vec<u8>, text: &Vec<u8>)
    ensures
        final(out)@ == old(out)@ + json_escaped(text@),
{
    let mut i: usize = 0;
    while i < text.len()
        invariant
            i <= text@.len(),
            out@ == old(out)@ + json_escaped(text@.take(i as int)),
        decreases text@.len() - i,
    {
        let b = text[i];
        if b == 34 {
            out.push(92);
            out.push(34);
        } else if b == 92 {
            out.push(92);
            out.push(92);
        } else if b < 32 {
            out.push(92);
            out.push(117);
            out.push(48);
            out.push(48);
            out.push(if b / 16 < 10 {
                b / 16 + 48
            } else {
                b / 16 + 87
            });
            out.push(if b % 16 < 10 {
                b % 16 + 48
            } else {
                b % 16 + 87
            });
        } else {
            out.push(b);
        }
        proof {
            lemma_json_escaped_push(text@.take(i as int), text@[i as int]);
            assert(text@.take(i + 1 as int) =~= text@.take(i as int).push(text@[i as int]));
            assert(out@ =~= old(out)@ + json_escaped(text@.take(i + 1 as int)));
        }
        i = i + 1;
    }
    proof {
        assert(text@.take(text@.len() as int) =~= text@);
    }
}

proof fn lemma_files_array_push(s: Seq<FileDescriptor>, d: FileDescriptor)
    ensures
        s.len() == 0 ==> files_array_json(s.push(d)) == file_entry_json(d),
        s.len() > 0 ==> files_array_json(s.push(d)) == files_array_json(s) + lit_bytes(",")
            + file_entry_json(d),
    decreases s.len(),
{
    if s.len() == 0 {
        assert(s.push(d)[0] == d);
    } else {
        lemma_files_array_push(s.drop_first(), d);
        assert(s.push(d)[0] == s[0]);
        assert(s.push(d).drop_first() =~= s.drop_first().push(d));
        if s.len() == 1 {
            assert(files_array_json(s.push(d)) =~= files_array_json(s) + lit_bytes(",")
                + file_entry_json(d));
        } else {
            assert(files_array_json(s.push(d)) =~= files_array_json(s) + lit_bytes(",")
                + file_entry_json(d));
        }
    }
}

/// Appends one file's manifest entry.
fn push_file_entry(out: &mut Vec<u8>, d: &FileDescriptor)
    ensures
        final(out)@ == old(out)@ + file_entry_json(*d),
{
    push_literal(out, "{\"file\":\"");
    push_escaped(out, &d.relative_path);
    push_literal(out, "\",\"sha\":\"");
    append_bytes(out, &d.content_digest);
    push_literal(out, "\",\"size\":");
    push_dec(out, d.size_bytes);
    push_literal(out, "}");
}

/// Serializes the deployment manifest for `name` and `files`.
///
/// The output is a function of the inputs alone: rebuilding it from the
/// same name and the same descriptors, in the same order, yields
/// byte-identical output.
pub fn build_manifest(name: &Vec<u8>, files: &Vec<FileDescriptor>) -> (r: Vec<u8>)
    ensures
        r@ == manifest_json(name@, files@),
{
    let mut out: Vec<u8> = Vec::new();
    push_literal(&mut out, "{\"version\":2,\"name\":\"");
    push_escaped(&mut out, name);
    push_literal(&mut out, "\",\"builds\":[{\"src\":\"**/*\",\"use\":\"@now/static\"}],\"files\":[");
    let ghost head: Seq<u8> = out@;
    let mut i: usize = 0;
    while i < files.len()
        invariant
            i <= files@.len(),
            out@ == head + files_array_json(files@.take(i as int)),
        decreases files@.len() - i,
    {
        if i > 0 {
            push_literal(&mut out, ",");
        }
        push_file_entry(&mut out, &files[i]);
        proof {
            lemma_files_array_push(files@.take(i as int), files@[i as int]);
            assert(files@.take(i + 1 as int) =~= files@.take(i as int).push(files@[i as int]));
            assert(out@ =~= head + files_array_json(files@.take(i + 1 as int)));
        }
        i = i + 1;
    }
    proof {
        assert(files@.take(files@.len() as int) =~= files@);
    }
    push_literal(&mut out, "],\"target\":\"staging\",\"meta\":{\"imported\":\"true\"}}");
    proof {
        assert(out@ =~= manifest_json(name@, files@));
    }
    out
}

/// Law: manifest construction is stable — equal names and equal file
/// lists give byte-identical manifests, however often they are rebuilt.
pub proof fn lemma_manifest_stable(
    name1: Seq<u8>,
    name2: Seq<u8>,
    files1: Seq<FileDescriptor>,
    files2: Seq<FileDescriptor>,
)
    requires
        name1 == name2,
        files1 == files2,
    ensures
        manifest_json(name1, files1) == manifest_json(name2, files2),
{
}

} // verus!
