//! Template integrity: every shipped file is pinned to its SHA-256 digest.
use crate::composer::decl::{FileIntegrity, IntegrityManifest, TemplateEntry, TemplateIntegrity};
use crate::lists::lemma_kept_next;
use crate::outside::{sha256, sha256_digest};
use crate::text::{join, join_texts, replace_all, replaced, same_text, texts, texts_push};
use vstd::prelude::*;

verus! {

/// The lower-case hexadecimal digit of a number below 16.
pub open spec fn hex_digit(d: nat) -> char {
    if d < 10 {
        (48 + d) as char
    } else {
        (87 + d) as char
    }
}

/// Two hexadecimal digits for each byte, in order.
pub open spec fn hex(bytes: Seq<u8>) -> Seq<char>
    decreases bytes.len(),
{
    if bytes.len() == 0 {
        Seq::empty()
    } else {
        let b = bytes.last() as nat;
        hex(bytes.drop_last()).push(hex_digit(b / 16)).push(hex_digit(b % 16))
    }
}

fn digit(d: u8) -> (c: char)
    requires
        d < 16,
    ensures
        c == hex_digit(d as nat),
{
    if d < 10 {
        (48u8 + d) as char
    } else {
        (87u8 + d) as char
    }
}

/// The hexadecimal form of a byte string.
pub fn hex_bytes(bytes: &[u8]) -> (out: String)
    ensures
        out@ == hex(bytes@),
{
    let mut out: String = String::new();
    let mut i: usize = 0;
    while i < bytes.len()
        invariant
            i <= bytes@.len(),
            out@ == hex(bytes@.take(i as int)),
        decreases bytes@.len() - i,
    {
        let b: u8 = bytes[i];
        assert(bytes@.take(i as int + 1).drop_last() =~= bytes@.take(i as int));
        out.push(digit(b / 16));
        out.push(digit(b % 16));
        i += 1;
    }
    assert(bytes@.take(bytes@.len() as int) =~= bytes@);
    out
}

/// The hexadecimal SHA-256 digest of a byte string.
pub fn sha256_hex(bytes: &[u8]) -> (out: String)
    ensures
        out@ == hex(sha256_digest(bytes@)),
{
    hex_bytes(sha256(bytes).as_slice())
}

/// Different byte strings have different hexadecimal forms.
pub proof fn law_hex_is_injective(a: Seq<u8>, b: Seq<u8>)
    requires
        hex(a) == hex(b),
    ensures
        a == b,
    decreases a.len(),
{
    lemma_hex_len(a);
    lemma_hex_len(b);
    if a.len() == 0 {
        assert(a =~= b);
    } else {
        let x = a.last();
        let y = b.last();
        let ha = hex(a);
        let hb = hex(b);
        let n = ha.len() as int;
        assert(ha[n - 1] == hex_digit(x as nat % 16) && hb[n - 1] == hex_digit(y as nat % 16));
        assert(ha[n - 2] == hex_digit(x as nat / 16) && hb[n - 2] == hex_digit(y as nat / 16));
        lemma_hex_digit(x as nat % 16, y as nat % 16);
        lemma_hex_digit(x as nat / 16, y as nat / 16);
        assert(ha.take(n - 2) =~= hex(a.drop_last()));
        assert(hb.take(n - 2) =~= hex(b.drop_last()));
        law_hex_is_injective(a.drop_last(), b.drop_last());
        assert(a =~= a.drop_last().push(x));
        assert(b =~= b.drop_last().push(y));
    }
}

proof fn lemma_hex_len(a: Seq<u8>)
    ensures
        hex(a).len() == 2 * a.len(),
    decreases a.len(),
{
    if a.len() > 0 {
        lemma_hex_len(a.drop_last());
    }
}

proof fn lemma_hex_digit(x: nat, y: nat)
    requires
        x < 16,
        y < 16,
        hex_digit(x) == hex_digit(y),
    ensures
        x == y,
{
}

/// The first template with the given identifier, from position `from` on.
pub open spec fn find_template(
    templates: Seq<TemplateIntegrity>,
    id: Seq<char>,
    from: nat,
) -> Option<TemplateIntegrity>
    decreases templates.len() - from,
{
    if from >= templates.len() {
        None
    } else if templates[from as int].id@ == id {
        Some(templates[from as int])
    } else {
        find_template(templates, id, from + 1)
    }
}

/// The pinned files of a template.
pub fn pinned_files<'a>(manifest: &'a IntegrityManifest, template_id: &str) -> (r: Result<
    &'a Vec<FileIntegrity>,
    String,
>)
    ensures
        match find_template(manifest.templates@, template_id@, 0) {
            Some(t) => r matches Ok(files) && *files == t.files,
            None => r matches Err(e) && e@ == "template `"@ + template_id@
                + "` not listed in integrity manifest"@,
        },
{
    let mut i: usize = 0;
    while i < manifest.templates.len()
        invariant
            i <= manifest.templates@.len(),
            find_template(manifest.templates@, template_id@, 0) == find_template(
                manifest.templates@,
                template_id@,
                i as nat,
            ),
        decreases manifest.templates@.len() - i,
    {
        if same_text(manifest.templates[i].id.as_str(), template_id) {
            return Ok(&manifest.templates[i].files);
        }
        i += 1;
    }
    let mut msg: String = "template `".to_owned();
    msg.append(template_id);
    msg.append("` not listed in integrity manifest");
    Err(msg)
}

/// Whether the optional signature over the manifest allows the template to be
/// loaded: no signature does, a valid one does.
pub fn check_signature(template_id: &str, valid: Option<Result<bool, String>>) -> (r: Result<
    (),
    String,
>)
    ensures
        match valid {
            None => r is Ok,
            Some(Ok(true)) => r is Ok,
            Some(Ok(false)) => r matches Err(e) && e@ == "template `"@ + template_id@
                + "` integrity manifest signature does not verify -- refusing to load"@,
            Some(Err(cause)) => r matches Err(e) && e@
                == "signature verification failed for template `"@ + template_id@ + "`: "@ + cause@,
        },
{
    match valid {
        None => Ok(()),
        Some(Ok(v)) => {
            if v {
                return Ok(());
            }
            let mut msg: String = "template `".to_owned();
            msg.append(template_id);
            msg.append("` integrity manifest signature does not verify -- refusing to load");
            Err(msg)
        },
        Some(Err(cause)) => {
            let mut msg: String = "signature verification failed for template `".to_owned();
            msg.append(template_id);
            msg.append("`: ");
            msg.append(cause.as_str());
            Err(msg)
        },
    }
}

/// What is said of a file whose digest is not the pinned one.
pub open spec fn mismatch_text(
    template_id: Seq<char>,
    file: FileIntegrity,
    digest: Seq<char>,
) -> Seq<char> {
    "template `"@ + template_id + "` file `"@ + file.path@ + "` hash mismatch: expected "@
        + file.sha256@ + ", got "@ + digest
        + " -- template may have been modified since it was pinned"@
}

/// The paths of the first `n` files.
pub open spec fn file_paths(files: Seq<FileIntegrity>) -> Seq<Seq<char>> {
    files.map_values(|f: FileIntegrity| f.path@)
}

/// The warnings about the first `n` files, given their contents.
pub open spec fn mismatches(
    template_id: Seq<char>,
    files: Seq<FileIntegrity>,
    contents: Seq<Vec<u8>>,
    n: nat,
) -> Seq<Seq<char>>
    decreases n,
{
    if n == 0 {
        Seq::empty()
    } else {
        let before = mismatches(template_id, files, contents, (n - 1) as nat);
        let digest = hex(sha256_digest(contents[n - 1]@));
        if digest == files[n - 1].sha256@ {
            before
        } else {
            before.push(mismatch_text(template_id, files[n - 1], digest))
        }
    }
}

/// The files that were checked, and what is to be said of them.
pub struct IntegrityReport {
    pub checked: Vec<String>,
    pub warnings: Vec<String>,
}

/// Checks the contents of a template's files against the pinned digests. A
/// changed file is reported here; [`load_template_manifest`] refuses it.
pub fn check_files(
    template_id: &str,
    files: &Vec<FileIntegrity>,
    contents: &Vec<Vec<u8>>,
) -> (out: IntegrityReport)
    requires
        files@.len() == contents@.len(),
    ensures
        texts(out.checked@) == file_paths(files@),
        texts(out.warnings@) == mismatches(template_id@, files@, contents@, files@.len()),
{
    broadcast use texts_push;

    let ghost all = file_paths(files@);
    let mut checked: Vec<String> = Vec::new();
    let mut warnings: Vec<String> = Vec::new();
    let mut i: usize = 0;
    assert(texts(checked@) =~= all.take(0));
    assert(texts(warnings@) =~= Seq::<Seq<char>>::empty());
    while i < files.len()
        invariant
            i <= files@.len(),
            files@.len() == contents@.len(),
            all == file_paths(files@),
            texts(checked@) == all.take(i as int),
            texts(warnings@) == mismatches(template_id@, files@, contents@, i as nat),
        decreases files@.len() - i,
    {
        let file: &FileIntegrity = &files[i];
        let digest: String = sha256_hex(contents[i].as_slice());
        if !same_text(digest.as_str(), file.sha256.as_str()) {
            let mut msg: String = "template `".to_owned();
            msg.append(template_id);
            msg.append("` file `");
            msg.append(file.path.as_str());
            msg.append("` hash mismatch: expected ");
            msg.append(file.sha256.as_str());
            msg.append(", got ");
            msg.append(digest.as_str());
            msg.append(" -- template may have been modified since it was pinned");
            warnings.push(msg);
        }
        checked.push(file.path.clone());
        i += 1;
        assert(all.take(i as int) =~= all.take(i as int - 1).push(all[i as int - 1]));
    }
    assert(all.take(i as int) =~= all);
    IntegrityReport { checked, warnings }
}

/// Verifies a template against its integrity manifest: it must be listed, a
/// signature that is present must verify, and each file is compared with the
/// digest it is pinned to.
pub fn verify_template_integrity(
    manifest: &IntegrityManifest,
    template_id: &str,
    signature: Option<Result<bool, String>>,
    contents: &Vec<Vec<u8>>,
) -> (r: Result<IntegrityReport, String>)
    requires
        find_template(manifest.templates@, template_id@, 0) matches Some(t) ==> t.files@.len()
            == contents@.len(),
    ensures
        match find_template(manifest.templates@, template_id@, 0) {
            None => r matches Err(e) && e@ == "template `"@ + template_id@
                + "` not listed in integrity manifest"@,
            Some(t) => match signature {
                Some(Err(cause)) => r matches Err(e) && e@
                    == "signature verification failed for template `"@ + template_id@ + "`: "@
                    + cause@,
                Some(Ok(false)) => r matches Err(e) && e@ == "template `"@ + template_id@
                    + "` integrity manifest signature does not verify -- refusing to load"@,
                _ => r matches Ok(report) && texts(report.checked@) == file_paths(t.files@)
                    && texts(report.warnings@) == mismatches(
                    template_id@,
                    t.files@,
                    contents@,
                    t.files@.len(),
                ),
            },
        },
{
    let files: &Vec<FileIntegrity> = match pinned_files(manifest, template_id) {
        Ok(files) => files,
        Err(e) => {
            return Err(e);
        },
    };
    match check_signature(template_id, signature) {
        Ok(_) => {},
        Err(e) => {
            return Err(e);
        },
    }
    Ok(check_files(template_id, files, contents))
}

/// Where a template stands in the index of templates, from an entry on.
pub open spec fn index_of(entries: Seq<TemplateEntry>, id: Seq<char>, from: nat) -> Option<nat>
    decreases entries.len() - from,
{
    if from >= entries.len() {
        None
    } else if entries[from as int].id@ == id {
        Some(from)
    } else {
        index_of(entries, id, from + 1)
    }
}

/// The entry of a template that is loaded. A template whose files differ from
/// what they are pinned to is refused, with everything that differs; so is one
/// that the index does not list.
pub fn load_template_manifest<'a>(
    entries: &'a Vec<TemplateEntry>,
    template_id: &str,
    report: &IntegrityReport,
) -> (r: Result<&'a TemplateEntry, String>)
    ensures
        if report.warnings@.len() > 0 {
            r matches Err(e) && e@ == join(texts(report.warnings@), "\n"@)
        } else {
            match index_of(entries@, template_id@, 0) {
                Some(i) => r == Ok::<&TemplateEntry, String>(&entries@[i as int]),
                None => r matches Err(e) && e@ == "unknown template `"@ + template_id@ + "`"@,
            }
        },
{
    if report.warnings.len() > 0 {
        return Err(join_texts(&report.warnings, "\n"));
    }
    let mut i: usize = 0;
    while i < entries.len()
        invariant
            i <= entries@.len(),
            report.warnings@.len() == 0,
            index_of(entries@, template_id@, 0) == index_of(entries@, template_id@, i as nat),
        decreases entries@.len() - i,
    {
        if same_text(entries[i].id.as_str(), template_id) {
            return Ok(&entries[i]);
        }
        i += 1;
    }
    let mut msg: String = "unknown template `".to_owned();
    msg.append(template_id);
    msg.append("`");
    Err(msg)
}

/// Pins a file to its digest. `path` is where it stands below the templates; it
/// is written with slashes.
pub fn pin_file(path: &str, content: &[u8]) -> (out: FileIntegrity)
    ensures
        out.path@ == replaced(path@, "\\"@, "/"@),
        out.sha256@ == hex(sha256_digest(content@)),
{
    proof {
        reveal_strlit("\\");
    }
    FileIntegrity { path: replace_all(path, "\\", "/"), sha256: sha256_hex(content) }
}

/// Where every file has its pinned digest, nothing is reported.
pub proof fn law_pinned_files_raise_no_warning(
    template_id: Seq<char>,
    files: Seq<FileIntegrity>,
    contents: Seq<Vec<u8>>,
    n: nat,
)
    requires
        n <= files.len(),
        n <= contents.len(),
        forall|i: int|
            0 <= i < n ==> hex(sha256_digest(#[trigger] contents[i]@)) == files[i].sha256@,
    ensures
        mismatches(template_id, files, contents, n).len() == 0,
    decreases n,
{
    if n > 0 {
        law_pinned_files_raise_no_warning(template_id, files, contents, (n - 1) as nat);
    }
}

/// A file that differs from what it is pinned to is reported.
pub proof fn law_a_changed_file_is_reported(
    template_id: Seq<char>,
    files: Seq<FileIntegrity>,
    contents: Seq<Vec<u8>>,
    i: int,
    n: nat,
)
    requires
        0 <= i < n <= files.len(),
        n <= contents.len(),
        hex(sha256_digest(contents[i]@)) != files[i].sha256@,
    ensures
        mismatches(template_id, files, contents, n).len() > 0,
    decreases n,
{
    if i < n - 1 {
        law_a_changed_file_is_reported(template_id, files, contents, i, (n - 1) as nat);
    }
}

/// A byte string in hexadecimal form has two digits for each byte, in order: the
/// high half first.
pub proof fn law_hex_digits(bytes: Seq<u8>, i: int)
    requires
        0 <= i < bytes.len(),
    ensures
        hex(bytes).len() == 2 * bytes.len(),
        ({
            let digits = seq![
                '0',
                '1',
                '2',
                '3',
                '4',
                '5',
                '6',
                '7',
                '8',
                '9',
                'a',
                'b',
                'c',
                'd',
                'e',
                'f',
            ];
            &&& hex(bytes)[2 * i] == digits[bytes[i] as int / 16]
            &&& hex(bytes)[2 * i + 1] == digits[bytes[i] as int % 16]
        }),
    decreases bytes.len(),
{
    lemma_hex_len(bytes);
    lemma_hex_len(bytes.drop_last());
    if i < bytes.len() - 1 {
        law_hex_digits(bytes.drop_last(), i);
    }
}

/// The pinned files of a template are those of the first listing of it.
pub proof fn law_found_template(templates: Seq<TemplateIntegrity>, id: Seq<char>, from: nat)
    ensures
        match find_template(templates, id, from) {
            Some(t) => exists|i: int|
                {
                    &&& from <= i < templates.len()
                    &&& #[trigger] templates[i] == t
                    &&& t.id@ == id
                    &&& forall|j: int| from <= j < i ==> (#[trigger] templates[j]).id@ != id
                },
            None => forall|i: int|
                from <= i < templates.len() ==> (#[trigger] templates[i]).id@ != id,
        },
    decreases templates.len() - from,
{
    if from < templates.len() {
        if templates[from as int].id@ != id {
            law_found_template(templates, id, from + 1);
        } else {
            assert(templates[from as int].id@ == id);
        }
    }
}

/// A template stands in the index where it is first listed.
pub proof fn law_indexed_template(entries: Seq<TemplateEntry>, id: Seq<char>, from: nat)
    ensures
        match index_of(entries, id, from) {
            Some(at) => {
                &&& from <= at < entries.len()
                &&& entries[at as int].id@ == id
                &&& forall|j: int| from <= j < at ==> (#[trigger] entries[j]).id@ != id
            },
            None => forall|i: int|
                from <= i < entries.len() ==> (#[trigger] entries[i]).id@ != id,
        },
    decreases entries.len() - from,
{
    if from < entries.len() && entries[from as int].id@ != id {
        law_indexed_template(entries, id, from + 1);
    }
}

/// Exactly the files whose digest is not the one that they are pinned to are
/// reported, each with both digests, in order.
pub proof fn law_which_files_are_reported(
    template_id: Seq<char>,
    files: Seq<FileIntegrity>,
    contents: Seq<Vec<u8>>,
    n: nat,
)
    requires
        n <= files.len(),
        files.len() == contents.len(),
    ensures
        mismatches(template_id, files, contents, n) == files.zip_with(contents).take(
            n as int,
        ).filter_map(
            |f: (FileIntegrity, Vec<u8>)|
                if hex(sha256_digest(f.1@)) == f.0.sha256@ {
                    None
                } else {
                    Some(
                        "template `"@ + template_id + "` file `"@ + f.0.path@
                            + "` hash mismatch: expected "@ + f.0.sha256@ + ", got "@ + hex(
                            sha256_digest(f.1@),
                        ) + " -- template may have been modified since it was pinned"@,
                    )
                },
        ),
    decreases n,
{
    let f = |f: (FileIntegrity, Vec<u8>)|
        if hex(sha256_digest(f.1@)) == f.0.sha256@ {
            None
        } else {
            Some(
                "template `"@ + template_id + "` file `"@ + f.0.path@
                    + "` hash mismatch: expected "@ + f.0.sha256@ + ", got "@ + hex(
                    sha256_digest(f.1@),
                ) + " -- template may have been modified since it was pinned"@,
            )
        };
    if n > 0 {
        law_which_files_are_reported(template_id, files, contents, (n - 1) as nat);
        lemma_kept_next(files.zip_with(contents), f, n - 1);
    }
}

} // verus!
