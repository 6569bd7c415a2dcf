//! Conversion invoker: the exact argument vector handed to the external
//! converter. Only options differing from the converter's built-in defaults
//! ever appear on the command line.

use vstd::prelude::*;
use crate::options::ConversionOptions;
use crate::options::OptionsV;
use crate::options::spec_default_options;
use crate::strnum::dec_rep;
use crate::strnum::u32_to_dec;

verus! {

/// The unconditional lead of every invocation: destination flag, destination
/// directory, input path.
pub open spec fn base_args(dest_dir: Seq<char>, input_path: Seq<char>) -> Seq<Seq<char>> {
    seq!["--dest-dir"@, dest_dir, input_path]
}

/// The zoom pair, present exactly when a zoom was given.
pub open spec fn zoom_args(o: OptionsV) -> Seq<Seq<char>> {
    match o.zoom {
        Some(z) => seq!["--zoom"@, z],
        None => seq![],
    }
}

/// A numeric pair, present exactly when the option was given.
pub open spec fn num_args(v: Option<u32>, flag: Seq<char>) -> Seq<Seq<char>> {
    match v {
        Some(n) => seq![flag, dec_rep(n as nat)],
        None => seq![],
    }
}

/// An embed pair, present exactly when embedding was explicitly disabled.
pub open spec fn embed_args(v: Option<bool>, flag: Seq<char>) -> Seq<Seq<char>> {
    if v == Some(false) {
        seq![flag, "0"@]
    } else {
        seq![]
    }
}

/// The split pair, present exactly when splitting was explicitly enabled.
pub open spec fn split_args(v: Option<bool>) -> Seq<Seq<char>> {
    if v == Some(true) {
        seq!["--split-pages"@, "1"@]
    } else {
        seq![]
    }
}

/// The full argument vector for one invocation.
pub open spec fn args_spec(dest_dir: Seq<char>, input_path: Seq<char>, o: OptionsV) -> Seq<
    Seq<char>,
> {
    base_args(dest_dir, input_path) + zoom_args(o) + num_args(o.fit_width, "--fit-width"@)
        + num_args(o.fit_height, "--fit-height"@) + embed_args(o.embed_css, "--embed-css"@)
        + embed_args(o.embed_font, "--embed-font"@) + embed_args(o.embed_image, "--embed-image"@)
        + embed_args(o.embed_javascript, "--embed-javascript"@) + split_args(o.split_pages)
        + num_args(o.first_page, "--first-page"@) + num_args(o.last_page, "--last-page"@)
}

fn push_pair(args: &mut Vec<String>, flag: &'static str, val: String)
    ensures
        final(args).deep_view() == old(args).deep_view() + seq![flag@, val@],
{
    args.push(flag.to_owned());
    args.push(val);
    proof {
        assert(args.deep_view() =~= old(args).deep_view() + seq![flag@, val@]);
    }
}

/// Builds the converter's argument vector from the typed configuration.
pub fn build_args(dest_dir: &str, input_path: &str, o: &ConversionOptions) -> (r: Vec<String>)
    ensures
        r.deep_view() == args_spec(dest_dir@, input_path@, o@),
{
    let mut args: Vec<String> = Vec::new();
    args.push("--dest-dir".to_owned());
    args.push(dest_dir.to_owned());
    args.push(input_path.to_owned());
    let ghost s0 = base_args(dest_dir@, input_path@);
    proof {
        assert(args.deep_view() =~= s0);
    }
    match &o.zoom {
        Some(z) => push_pair(&mut args, "--zoom", z.clone()),
        None => (),
    }
    let ghost s1 = s0 + zoom_args(o@);
    proof {
        assert(args.deep_view() =~= s1);
    }
    match &o.fit_width {
        Some(w) => push_pair(&mut args, "--fit-width", u32_to_dec(*w)),
        None => (),
    }
    let ghost s2 = s1 + num_args(o@.fit_width, "--fit-width"@);
    proof {
        assert(args.deep_view() =~= s2);
    }
    match &o.fit_height {
        Some(h) => push_pair(&mut args, "--fit-height", u32_to_dec(*h)),
        None => (),
    }
    let ghost s3 = s2 + num_args(o@.fit_height, "--fit-height"@);
    proof {
        assert(args.deep_view() =~= s3);
    }
    if let Some(false) = o.embed_css {
        push_pair(&mut args, "--embed-css", "0".to_owned());
    }
    let ghost s4 = s3 + embed_args(o@.embed_css, "--embed-css"@);
    proof {
        assert(args.deep_view() =~= s4);
    }
    if let Some(false) = o.embed_font {
        push_pair(&mut args, "--embed-font", "0".to_owned());
    }
    let ghost s5 = s4 + embed_args(o@.embed_font, "--embed-font"@);
    proof {
        assert(args.deep_view() =~= s5);
    }
    if let Some(false) = o.embed_image {
        push_pair(&mut args, "--embed-image", "0".to_owned());
    }
    let ghost s6 = s5 + embed_args(o@.embed_image, "--embed-image"@);
    proof {
        assert(args.deep_view() =~= s6);
    }
    if let Some(false) = o.embed_javascript {
        push_pair(&mut args, "--embed-javascript", "0".to_owned());
    }
    let ghost s7 = s6 + embed_args(o@.embed_javascript, "--embed-javascript"@);
    proof {
        assert(args.deep_view() =~= s7);
    }
    if let Some(true) = o.split_pages {
        push_pair(&mut args, "--split-pages", "1".to_owned());
    }
    let ghost s8 = s7 + split_args(o@.split_pages);
    proof {
        assert(args.deep_view() =~= s8);
    }
    match &o.first_page {
        Some(p) => push_pair(&mut args, "--first-page", u32_to_dec(*p)),
        None => (),
    }
    let ghost s9 = s8 + num_args(o@.first_page, "--first-page"@);
    proof {
        assert(args.deep_view() =~= s9);
    }
    match &o.last_page {
        Some(p) => push_pair(&mut args, "--last-page", u32_to_dec(*p)),
        None => (),
    }
    proof {
        assert(args.deep_view() =~= s9 + num_args(o@.last_page, "--last-page"@));
        assert(args.deep_view() == args_spec(dest_dir@, input_path@, o@));
    }
    args
}

/// Flag `flag` stands in `args` immediately followed by the value `val`.
pub open spec fn has_pair(args: Seq<Seq<char>>, flag: Seq<char>, val: Seq<char>) -> bool {
    exists|i: int| 0 <= i && i + 2 <= args.len() && #[trigger] args[i] == flag && args[i + 1] == val
}

proof fn lemma_has_pair_extend_left(x: Seq<Seq<char>>, s: Seq<Seq<char>>, f: Seq<char>, v: Seq<char>)
    requires
        has_pair(s, f, v),
    ensures
        has_pair(x + s, f, v),
{
    let i = choose|i: int| 0 <= i && i + 2 <= s.len() && #[trigger] s[i] == f && s[i + 1] == v;
    assert((x + s)[x.len() + i] == f);
    assert((x + s)[x.len() + i + 1] == v);
}

proof fn lemma_has_pair_extend_right(s: Seq<Seq<char>>, y: Seq<Seq<char>>, f: Seq<char>, v: Seq<char>)
    requires
        has_pair(s, f, v),
    ensures
        has_pair(s + y, f, v),
{
    let i = choose|i: int| 0 <= i && i + 2 <= s.len() && #[trigger] s[i] == f && s[i + 1] == v;
    assert((s + y)[i] == f);
    assert((s + y)[i + 1] == v);
}

/// With every option at its default, the command line is exactly the
/// destination flag, the destination directory, and the input path: no
/// embed, split, zoom, fit, or page flag at all.
pub proof fn lemma_default_args_minimal(dest_dir: Seq<char>, input_path: Seq<char>)
    ensures
        args_spec(dest_dir, input_path, spec_default_options()) == base_args(
            dest_dir,
            input_path,
        ),
        args_spec(dest_dir, input_path, spec_default_options()).len() == 3,
{
    assert(args_spec(dest_dir, input_path, spec_default_options()) =~= base_args(
        dest_dir,
        input_path,
    ));
}

/// Explicitly disabled CSS embedding always puts `--embed-css 0` on the
/// command line, whatever the other options.
pub proof fn lemma_embed_css_disabled_flag(dest_dir: Seq<char>, input_path: Seq<char>, o: OptionsV)
    requires
        o.embed_css == Some(false),
    ensures
        has_pair(args_spec(dest_dir, input_path, o), "--embed-css"@, "0"@),
{
    let p4 = base_args(dest_dir, input_path) + zoom_args(o) + num_args(o.fit_width, "--fit-width"@)
        + num_args(o.fit_height, "--fit-height"@);
    let css = embed_args(o.embed_css, "--embed-css"@);
    assert(css[0] == "--embed-css"@ && css[1] == "0"@ && css.len() == 2);
    assert(has_pair(css, "--embed-css"@, "0"@));
    lemma_has_pair_extend_left(p4, css, "--embed-css"@, "0"@);
    lemma_has_pair_extend_right(p4 + css, embed_args(o.embed_font, "--embed-font"@), "--embed-css"@, "0"@);
    lemma_has_pair_extend_right(
        p4 + css + embed_args(o.embed_font, "--embed-font"@),
        embed_args(o.embed_image, "--embed-image"@),
        "--embed-css"@,
        "0"@,
    );
    lemma_has_pair_extend_right(
        p4 + css + embed_args(o.embed_font, "--embed-font"@) + embed_args(
            o.embed_image,
            "--embed-image"@,
        ),
        embed_args(o.embed_javascript, "--embed-javascript"@),
        "--embed-css"@,
        "0"@,
    );
    lemma_has_pair_extend_right(
        p4 + css + embed_args(o.embed_font, "--embed-font"@) + embed_args(
            o.embed_image,
            "--embed-image"@,
        ) + embed_args(o.embed_javascript, "--embed-javascript"@),
        split_args(o.split_pages),
        "--embed-css"@,
        "0"@,
    );
    lemma_has_pair_extend_right(
        p4 + css + embed_args(o.embed_font, "--embed-font"@) + embed_args(
            o.embed_image,
            "--embed-image"@,
        ) + embed_args(o.embed_javascript, "--embed-javascript"@) + split_args(o.split_pages),
        num_args(o.first_page, "--first-page"@),
        "--embed-css"@,
        "0"@,
    );
    lemma_has_pair_extend_right(
        p4 + css + embed_args(o.embed_font, "--embed-font"@) + embed_args(
            o.embed_image,
            "--embed-image"@,
        ) + embed_args(o.embed_javascript, "--embed-javascript"@) + split_args(o.split_pages)
            + num_args(o.first_page, "--first-page"@),
        num_args(o.last_page, "--last-page"@),
        "--embed-css"@,
        "0"@,
    );
}

/// Explicitly enabled page splitting always puts `--split-pages 1` on the
/// command line, whatever the other options.
pub proof fn lemma_split_pages_enabled_flag(dest_dir: Seq<char>, input_path: Seq<char>, o: OptionsV)
    requires
        o.split_pages == Some(true),
    ensures
        has_pair(args_spec(dest_dir, input_path, o), "--split-pages"@, "1"@),
{
    let p8 = base_args(dest_dir, input_path) + zoom_args(o) + num_args(o.fit_width, "--fit-width"@)
        + num_args(o.fit_height, "--fit-height"@) + embed_args(o.embed_css, "--embed-css"@)
        + embed_args(o.embed_font, "--embed-font"@) + embed_args(o.embed_image, "--embed-image"@)
        + embed_args(o.embed_javascript, "--embed-javascript"@);
    let sp = split_args(o.split_pages);
    assert(sp[0] == "--split-pages"@ && sp[1] == "1"@ && sp.len() == 2);
    assert(has_pair(sp, "--split-pages"@, "1"@));
    lemma_has_pair_extend_left(p8, sp, "--split-pages"@, "1"@);
    lemma_has_pair_extend_right(
        p8 + sp,
        num_args(o.first_page, "--first-page"@),
        "--split-pages"@,
        "1"@,
    );
    lemma_has_pair_extend_right(
        p8 + sp + num_args(o.first_page, "--first-page"@),
        num_args(o.last_page, "--last-page"@),
        "--split-pages"@,
        "1"@,
    );
}

/// A given zoom always puts `--zoom` and its spelling on the command line,
/// whatever the other options.
pub proof fn lemma_zoom_flag(dest_dir: Seq<char>, input_path: Seq<char>, o: OptionsV, z: Seq<char>)
    requires
        o.zoom == Some(z),
    ensures
        has_pair(args_spec(dest_dir, input_path, o), "--zoom"@, z),
{
    let zm = zoom_args(o);
    assert(zm[0] == "--zoom"@ && zm[1] == z && zm.len() == 2);
    assert(has_pair(zm, "--zoom"@, z));
    let b = base_args(dest_dir, input_path);
    lemma_has_pair_extend_left(b, zm, "--zoom"@, z);
    lemma_has_pair_extend_right(b + zm, num_args(o.fit_width, "--fit-width"@), "--zoom"@, z);
    let p2 = b + zm + num_args(o.fit_width, "--fit-width"@);
    lemma_has_pair_extend_right(p2, num_args(o.fit_height, "--fit-height"@), "--zoom"@, z);
    let p3 = p2 + num_args(o.fit_height, "--fit-height"@);
    lemma_has_pair_extend_right(p3, embed_args(o.embed_css, "--embed-css"@), "--zoom"@, z);
    let p4 = p3 + embed_args(o.embed_css, "--embed-css"@);
    lemma_has_pair_extend_right(p4, embed_args(o.embed_font, "--embed-font"@), "--zoom"@, z);
    let p5 = p4 + embed_args(o.embed_font, "--embed-font"@);
    lemma_has_pair_extend_right(p5, embed_args(o.embed_image, "--embed-image"@), "--zoom"@, z);
    let p6 = p5 + embed_args(o.embed_image, "--embed-image"@);
    lemma_has_pair_extend_right(
        p6,
        embed_args(o.embed_javascript, "--embed-javascript"@),
        "--zoom"@,
        z,
    );
    let p7 = p6 + embed_args(o.embed_javascript, "--embed-javascript"@);
    lemma_has_pair_extend_right(p7, split_args(o.split_pages), "--zoom"@, z);
    let p8 = p7 + split_args(o.split_pages);
    lemma_has_pair_extend_right(p8, num_args(o.first_page, "--first-page"@), "--zoom"@, z);
    let p9 = p8 + num_args(o.first_page, "--first-page"@);
    lemma_has_pair_extend_right(p9, num_args(o.last_page, "--last-page"@), "--zoom"@, z);
}

} // verus!
