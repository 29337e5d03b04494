//! The project's own gates: rules on its manifests, its dependency trees and its
//! source files, apart from running the commands that give them.
use vstd::prelude::*;
use vstd::string::StringExecFns;
use crate::text;
use crate::text::cut_text;
use crate::text::decimal;
use crate::text::find_text;

verus! {

/// How many lines a source file may have without a justification.
pub const MAX_LINES: usize = 400;

/// The crates that ship.
#[must_use]
pub fn shipped() -> (r: Vec<&'static str>)
    ensures
        text::views(r@) == seq![
            "evoxy-abi"@,
            "evoxy-adapter"@,
            "evoxy-route"@,
            "evoxy-filter"@,
            "evoxy-extproc"@,
        ],
{
    let r: Vec<&'static str> = vec![
        "evoxy-abi",
        "evoxy-adapter",
        "evoxy-route",
        "evoxy-filter",
        "evoxy-extproc",
    ];
    assert(text::views(r@) =~= seq![
        "evoxy-abi"@,
        "evoxy-adapter"@,
        "evoxy-route"@,
        "evoxy-filter"@,
        "evoxy-extproc"@,
    ]);
    r
}

/// Whether `pat` stands anywhere in `s`.
pub open spec fn mentions(s: Seq<char>, pat: Seq<char>) -> bool {
    find_text(s, pat, 0) is Some
}

fn contains(s: &str, pat: &str) -> (r: bool)
    ensures
        r == mentions(s@, pat@),
{
    text::split_once_text(s, pat).is_some()
}

/// A manifest up to its development dependencies: a dependency that only the tests
/// have is no dependency of what ships.
pub open spec fn runtime_section(manifest: Seq<char>) -> Seq<char> {
    match cut_text(manifest, "[dev-dependencies]"@) {
        Some((before, _)) => before,
        None => manifest,
    }
}

/// The manifest text before `[dev-dependencies]`.
#[must_use]
pub fn section_before_dev<'a>(manifest: &'a str) -> (r: &'a str)
    ensures
        r@ == runtime_section(manifest@),
{
    match text::split_once_text(manifest, "[dev-dependencies]") {
        Some((before, _)) => before,
        None => manifest,
    }
}

/// The first rule on the direction of dependencies that the manifests break.
pub open spec fn arch_violation(abi: Seq<char>, adapter: Seq<char>) -> Option<Seq<char>> {
    if mentions(runtime_section(abi), "evoxy-adapter"@) {
        Some("arch: evoxy-abi must not depend on evoxy-adapter (INV-1)"@)
    } else if mentions(runtime_section(abi), "evoxy-route"@) {
        Some("arch: evoxy-abi must not depend on evoxy-route (INV-1)"@)
    } else if mentions(runtime_section(adapter), "evoxy-route"@) {
        Some("arch: evoxy-adapter must not depend on evoxy-route (INV-1)"@)
    } else {
        None
    }
}

/// Checks that dependencies point downward only: the wire model depends on no other
/// crate of the project, and the adapter not on routing.
///
/// # Errors
/// What the first broken rule says.
pub fn check_arch(abi_manifest: &str, adapter_manifest: &str) -> (r: Result<(), &'static str>)
    ensures
        match r {
            Ok(()) => arch_violation(abi_manifest@, adapter_manifest@) is None,
            Err(message) => arch_violation(abi_manifest@, adapter_manifest@) == Some(message@),
        },
{
    let abi = section_before_dev(abi_manifest);
    if contains(abi, "evoxy-adapter") {
        return Err("arch: evoxy-abi must not depend on evoxy-adapter (INV-1)");
    }
    if contains(abi, "evoxy-route") {
        return Err("arch: evoxy-abi must not depend on evoxy-route (INV-1)");
    }
    if contains(section_before_dev(adapter_manifest), "evoxy-route") {
        return Err("arch: evoxy-adapter must not depend on evoxy-route (INV-1)");
    }
    Ok(())
}

/// What stands in a dependency tree where it links wire cryptography: how the crate is
/// found in the tree, and what it is called. `ring` is found together with the start of
/// its version, because its bare name is part of many others.
pub open spec fn forbidden() -> Seq<(Seq<char>, Seq<char>)> {
    seq![
        ("rustls"@, "rustls"@),
        ("ring v"@, "ring"@),
        ("aws-lc-rs"@, "aws-lc-rs"@),
        ("aws-lc-sys"@, "aws-lc-sys"@),
        ("openssl"@, "openssl"@),
        ("boring"@, "boring"@),
        ("native-tls"@, "native-tls"@),
    ]
}

/// The first forbidden crate that a dependency tree names, at or behind `from` in the
/// list.
pub open spec fn first_forbidden(tree: Seq<char>, from: int) -> Option<Seq<char>>
    decreases forbidden().len() - from,
{
    if from < 0 || from >= forbidden().len() {
        None
    } else if mentions(tree, forbidden()[from].0) {
        Some(forbidden()[from].1)
    } else {
        first_forbidden(tree, from + 1)
    }
}

/// What is said of a crate that links wire cryptography.
pub open spec fn crypto_message(krate: Seq<char>, found: Seq<char>) -> Seq<char> {
    "crypto-free: "@ + krate + " links `"@ + found
        + "` on the data path \u{2014} the wire is Envoy's (ADR-006); keep crypto out of the shipped extension"@
}

/// A dependency tree passes exactly where it names no forbidden crate.
pub proof fn clean_trees_name_nothing_forbidden(tree: Seq<char>)
    ensures
        first_forbidden(tree, 0) is None <==> forall|i: int|
            0 <= i < forbidden().len() ==> !mentions(tree, (#[trigger] forbidden()[i]).0),
{
    lemma_first_forbidden(tree, 0);
}

proof fn lemma_first_forbidden(tree: Seq<char>, from: int)
    requires
        0 <= from,
    ensures
        first_forbidden(tree, from) is None <==> forall|i: int|
            from <= i < forbidden().len() ==> !mentions(tree, (#[trigger] forbidden()[i]).0),
    decreases forbidden().len() - from,
{
    if from < forbidden().len() {
        lemma_first_forbidden(tree, from + 1);
        if mentions(tree, forbidden()[from].0) {
            assert(!(first_forbidden(tree, from) is None));
        } else {
            assert forall|i: int|
                from <= i < forbidden().len() && first_forbidden(tree, from + 1) is None implies !mentions(
                tree,
                (#[trigger] forbidden()[i]).0,
            ) by {}
        }
    }
}

/// Checks that the dependency tree of a shipped crate links no wire cryptography: the
/// data plane's TLS is the proxy's.
///
/// # Errors
/// What is said of the first forbidden crate that the tree names.
pub fn check_crypto_free(krate: &str, tree: &str) -> (r: Result<(), String>)
    ensures
        match r {
            Ok(()) => first_forbidden(tree@, 0) is None,
            Err(message) => {
                &&& first_forbidden(tree@, 0) is Some
                &&& message@ == crypto_message(krate@, first_forbidden(tree@, 0)->0)
            },
        },
{
    let list: Vec<(&'static str, &'static str)> = vec![
        ("rustls", "rustls"),
        ("ring v", "ring"),
        ("aws-lc-rs", "aws-lc-rs"),
        ("aws-lc-sys", "aws-lc-sys"),
        ("openssl", "openssl"),
        ("boring", "boring"),
        ("native-tls", "native-tls"),
    ];
    let mut i: usize = 0;
    while i < list.len()
        invariant
            i <= list@.len(),
            list@.len() == forbidden().len(),
            forall|k: int|
                0 <= k < list@.len() ==> ((#[trigger] list@[k]).0@, list@[k].1@) == forbidden()[k],
            first_forbidden(tree@, 0) == first_forbidden(tree@, i as int),
        decreases list@.len() - i,
    {
        let (pattern, name) = list[i];
        assert((list@[i as int].0@, list@[i as int].1@) == forbidden()[i as int]);
        if contains(tree, pattern) {
            let mut message = text::concat("crypto-free: ", krate);
            message.append(" links `");
            message.append(name);
            message.append(
                "` on the data path \u{2014} the wire is Envoy's (ADR-006); keep crypto out of the shipped extension",
            );
            return Err(message);
        }
        i += 1;
    }
    Ok(())
}

/// How many line ends a text has.
pub open spec fn line_ends(s: Seq<char>) -> nat
    decreases s.len(),
{
    if s.len() == 0 {
        0
    } else {
        line_ends(s.drop_last()) + if s.last() == '\n' {
            1nat
        } else {
            0nat
        }
    }
}

/// How many lines a text has; a last line need not be ended.
pub open spec fn line_count(s: Seq<char>) -> nat {
    line_ends(s) + if s.len() > 0 && s.last() != '\n' {
        1nat
    } else {
        0nat
    }
}

/// Whether a source file is too long and does not say why.
pub open spec fn over_budget(source: Seq<char>) -> bool {
    line_count(source) > MAX_LINES && !mentions(source, "// JUSTIFY"@)
}

proof fn lemma_line_ends(s: Seq<char>)
    ensures
        line_ends(s) <= s.len(),
        line_count(s) <= s.len(),
    decreases s.len(),
{
    if s.len() > 0 {
        lemma_line_ends(s.drop_last());
    }
}

/// How many lines a text has.
#[must_use]
pub fn count_lines(source: &str) -> (n: usize)
    ensures
        n == line_count(source@),
{
    let chars = text::to_chars(source);
    let mut n: usize = 0;
    let mut i: usize = 0;
    assert(source@.take(0) =~= Seq::<char>::empty());
    while i < chars.len()
        invariant
            chars@ == source@,
            i <= chars@.len(),
            n == line_ends(source@.take(i as int)),
            n <= i,
        decreases chars@.len() - i,
    {
        proof {
            assert(source@.take(i + 1).drop_last() =~= source@.take(i as int));
            lemma_line_ends(source@.take(i as int));
        }
        if chars[i] == '\n' {
            n += 1;
        }
        i += 1;
    }
    proof {
        assert(source@.take(i as int) =~= source@);
        lemma_line_ends(source@);
    }
    if chars.len() > 0 && chars[chars.len() - 1] != '\n' {
        n += 1;
    }
    n
}

/// The line of a report on a source file that is over its budget.
pub open spec fn violation_text(path: Seq<char>, lines: nat) -> Seq<char> {
    "  "@ + path + " ("@ + decimal(lines) + " lines)"@
}

/// Checks one source file: over [`MAX_LINES`] lines, it must carry a justification.
///
/// # Errors
/// The line of the report on it.
pub fn check_budget(path: &str, source: &str) -> (r: Result<(), String>)
    ensures
        match r {
            Ok(()) => !over_budget(source@),
            Err(line) => over_budget(source@) && line@ == violation_text(
                path@,
                line_count(source@),
            ),
        },
{
    let lines: usize = count_lines(source);
    if lines > MAX_LINES && !contains(source, "// JUSTIFY") {
        let mut line = text::concat("  ", path);
        line.append(" (");
        text::push_decimal(&mut line, lines as u128);
        line.append(" lines)");
        return Err(line);
    }
    Ok(())
}

/// A dependency tree that names any of the crates of wire cryptography does not pass,
/// wherever the name stands in it.
pub proof fn wire_cryptography_is_found(tree: Seq<char>)
    ensures
        mentions(tree, "rustls"@) || mentions(tree, "ring v"@) || mentions(tree, "aws-lc-rs"@)
            || mentions(tree, "aws-lc-sys"@) || mentions(tree, "openssl"@) || mentions(
            tree,
            "boring"@,
        ) || mentions(tree, "native-tls"@) <==> first_forbidden(tree, 0) is Some,
        mentions(tree, "rustls"@) ==> first_forbidden(tree, 0) == Some("rustls"@),
        !mentions(tree, "rustls"@) && mentions(tree, "ring v"@) ==> first_forbidden(tree, 0)
            == Some("ring"@),
{
    reveal_with_fuel(first_forbidden, 8);
}

/// A text is found wherever it stands.
pub proof fn mentions_are_found_anywhere(front: Seq<char>, pat: Seq<char>, back: Seq<char>)
    ensures
        mentions(front + pat + back, pat),
{
    let s = front + pat + back;
    let at = front.len() as int;
    assert(s.subrange(at, at + pat.len()) =~= pat);
    lemma_found(s, pat, 0, at);
}

proof fn lemma_found(s: Seq<char>, pat: Seq<char>, from: int, at: int)
    requires
        0 <= from <= at <= s.len(),
        text::occurs_at(s, pat, at),
    ensures
        find_text(s, pat, from) is Some,
    decreases at - from,
{
    if !text::occurs_at(s, pat, from) {
        lemma_found(s, pat, from + 1, at);
    }
}

/// What stands behind the development dependencies of a manifest does not count, and what
/// stands before them does.
pub proof fn only_runtime_dependencies_count(manifest: Seq<char>, adapter: Seq<char>)
    ensures
        match find_text(manifest, "[dev-dependencies]"@, 0) {
            Some(at) => runtime_section(manifest) == manifest.take(at),
            None => runtime_section(manifest) == manifest,
        },
        mentions(runtime_section(manifest), "evoxy-adapter"@) || mentions(
            runtime_section(manifest),
            "evoxy-route"@,
        ) || mentions(runtime_section(adapter), "evoxy-route"@) <==> arch_violation(
            manifest,
            adapter,
        ) is Some,
{
}

/// Lines are counted by their ends; a last line that is not ended counts too.
pub proof fn lines_are_counted_by_their_ends(s: Seq<char>, c: char)
    ensures
        line_count(Seq::empty()) == 0,
        line_count(s.push('\n')) == if s.len() > 0 && s.last() != '\n' {
            line_count(s)
        } else {
            line_count(s) + 1
        },
        c != '\n' ==> line_count(s.push(c)) == if s.len() > 0 && s.last() != '\n' {
            line_count(s)
        } else {
            line_count(s) + 1
        },
        over_budget(s) <==> line_count(s) > 400 && !mentions(s, "// JUSTIFY"@),
{
    assert(s.push('\n').drop_last() =~= s);
    assert(s.push(c).drop_last() =~= s);
}

/// What a gate reports names what it found: the crate and what it links, or the file and
/// its number of lines.
pub proof fn reports_name_what_was_found(a: Seq<char>, b: Seq<char>, lines: nat)
    ensures
        find_text(crypto_message(a, b), a, 0) is Some,
        find_text(crypto_message(a, b), b, 0) is Some,
        find_text(violation_text(a, lines), a, 0) is Some,
        find_text(violation_text(a, lines), decimal(lines), 0) is Some,
{
    let one = "crypto-free: "@;
    let two = " links `"@;
    let whole = crypto_message(a, b);
    let at = one.len() + a.len() + two.len();
    assert(whole.subrange(one.len() as int, one.len() as int + a.len()) =~= a);
    assert(whole.subrange(at as int, at as int + b.len()) =~= b);
    lemma_found(whole, a, 0, one.len() as int);
    lemma_found(whole, b, 0, at as int);
    let lead = "  "@;
    let open = " ("@;
    let told = violation_text(a, lines);
    let from = lead.len() + a.len() + open.len();
    assert(told.subrange(lead.len() as int, lead.len() as int + a.len()) =~= a);
    assert(told.subrange(from as int, from as int + decimal(lines).len()) =~= decimal(lines));
    lemma_found(told, a, 0, lead.len() as int);
    lemma_found(told, decimal(lines), 0, from as int);
}

} // verus!
