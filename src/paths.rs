//! The fixed set of bundled files, by path relative to the asset root, and
//! the proof that they make a well-formed table.

use vstd::prelude::*;
use vstd::utf8::{encode_utf8, is_ascii_chars, is_ascii_chars_encode_utf8, is_ascii_chars_nat_bound};
use crate::bytes::{BACKSLASH, lemma_lex_lt_at, lemma_sorted_from_neighbours, lex_lt};

verus! {

/// The paths of the bundled files, in ascending byte-wise order.
pub open spec fn bundled_paths() -> Seq<Seq<char>> {
    seq![
        "bib/bad.bib"@,
        "bib/scifi-authors.yaml"@,
        "bib/works.bib"@,
        "bib/works_too.bib"@,
        "data/bad.csv"@,
        "data/bad.json"@,
        "data/bad.toml"@,
        "data/bad.xml"@,
        "data/bad.yaml"@,
        "data/big-number.json"@,
        "data/details.toml"@,
        "data/example.csv"@,
        "data/example.xml"@,
        "data/hello.xml"@,
        "data/monday.json"@,
        "data/moore.csv"@,
        "data/toml-types.toml"@,
        "data/tuesday.json"@,
        "data/yaml-types.yaml"@,
        "data/zoo.csv"@,
        "data/zoo.json"@,
        "fonts/FiraMath-Regular.otf"@,
        "fonts/IBMPlexSans-Bold.ttf"@,
        "fonts/IBMPlexSans-Light.ttf"@,
        "fonts/IBMPlexSans-Medium.ttf"@,
        "fonts/IBMPlexSans-Regular.ttf"@,
        "fonts/IBMPlexSansCondensed-Regular.ttf"@,
        "fonts/IBMPlexSansDevanagari-Regular.ttf"@,
        "fonts/IBMPlexSerif-Regular.ttf"@,
        "fonts/InriaSerif-Bold.ttf"@,
        "fonts/InriaSerif-BoldItalic.ttf"@,
        "fonts/InriaSerif-Italic.ttf"@,
        "fonts/InriaSerif-Regular.ttf"@,
        "fonts/NotoColorEmoji.ttf"@,
        "fonts/NotoSansArabic-Regular.ttf"@,
        "fonts/NotoSansSymbols2-Regular.ttf"@,
        "fonts/NotoSansThai-Regular.ttf"@,
        "fonts/NotoSerifCJKjp-Regular.otf"@,
        "fonts/NotoSerifCJKkr-Regular.otf"@,
        "fonts/NotoSerifCJKsc-Bold.otf"@,
        "fonts/NotoSerifCJKsc-Regular.otf"@,
        "fonts/NotoSerifCJKtc-Bold.otf"@,
        "fonts/NotoSerifCJKtc-Regular.otf"@,
        "fonts/NotoSerifHebrew-Bold.ttf"@,
        "fonts/NotoSerifHebrew-Regular.ttf"@,
        "fonts/PTSans-Regular.ttf"@,
        "fonts/Roboto-Regular.ttf"@,
        "fonts/TwitterColorEmoji.ttf"@,
        "fonts/Ubuntu-Regular.ttf"@,
        "images/bad.svg"@,
        "images/chinese.svg"@,
        "images/cylinder.svg"@,
        "images/diagram.svg"@,
        "images/docs.svg"@,
        "images/f2t.jpg"@,
        "images/glacier.jpg"@,
        "images/graph.png"@,
        "images/logo.svg"@,
        "images/molecular.jpg"@,
        "images/monkey.svg"@,
        "images/pattern.svg"@,
        "images/rhino.png"@,
        "images/tetrahedron.svg"@,
        "images/tiger.jpg"@,
        "images/typing.jpg"@,
        "plugins/hello.wasm"@,
        "plugins/plugin-oob.wasm"@,
        "screenshots/1-writing-app.png"@,
        "screenshots/1-writing-upload.png"@,
        "screenshots/2-formatting-autocomplete.png"@,
        "screenshots/3-advanced-paper.png"@,
        "screenshots/3-advanced-team-settings.png"@,
        "syntaxes/SExpressions.sublime-syntax"@,
        "text/bad.txt"@,
        "text/example.html"@,
        "text/hello.txt"@,
        "themes/halcyon.tmTheme"@,
    ]
}

/// The UTF-8 bytes of each bundled path.
pub open spec fn encoded_paths() -> Seq<Seq<u8>> {
    bundled_paths().map_values(|p: Seq<char>| encode_utf8(p))
}

/// How many files are bundled.
pub const BUNDLED_COUNT: usize = 77;

/// The paths of the bundled files, in ascending byte-wise order.
pub fn asset_paths() -> (r: Vec<&'static str>)
    ensures
        r@.len() == bundled_paths().len(),
        forall|i: int| 0 <= i < r@.len() ==> r@[i]@ == bundled_paths()[i],
{
    vec![
        "bib/bad.bib",
        "bib/scifi-authors.yaml",
        "bib/works.bib",
        "bib/works_too.bib",
        "data/bad.csv",
        "data/bad.json",
        "data/bad.toml",
        "data/bad.xml",
        "data/bad.yaml",
        "data/big-number.json",
        "data/details.toml",
        "data/example.csv",
        "data/example.xml",
        "data/hello.xml",
        "data/monday.json",
        "data/moore.csv",
        "data/toml-types.toml",
        "data/tuesday.json",
        "data/yaml-types.yaml",
        "data/zoo.csv",
        "data/zoo.json",
        "fonts/FiraMath-Regular.otf",
        "fonts/IBMPlexSans-Bold.ttf",
        "fonts/IBMPlexSans-Light.ttf",
        "fonts/IBMPlexSans-Medium.ttf",
        "fonts/IBMPlexSans-Regular.ttf",
        "fonts/IBMPlexSansCondensed-Regular.ttf",
        "fonts/IBMPlexSansDevanagari-Regular.ttf",
        "fonts/IBMPlexSerif-Regular.ttf",
        "fonts/InriaSerif-Bold.ttf",
        "fonts/InriaSerif-BoldItalic.ttf",
        "fonts/InriaSerif-Italic.ttf",
        "fonts/InriaSerif-Regular.ttf",
        "fonts/NotoColorEmoji.ttf",
        "fonts/NotoSansArabic-Regular.ttf",
        "fonts/NotoSansSymbols2-Regular.ttf",
        "fonts/NotoSansThai-Regular.ttf",
        "fonts/NotoSerifCJKjp-Regular.otf",
        "fonts/NotoSerifCJKkr-Regular.otf",
        "fonts/NotoSerifCJKsc-Bold.otf",
        "fonts/NotoSerifCJKsc-Regular.otf",
        "fonts/NotoSerifCJKtc-Bold.otf",
        "fonts/NotoSerifCJKtc-Regular.otf",
        "fonts/NotoSerifHebrew-Bold.ttf",
        "fonts/NotoSerifHebrew-Regular.ttf",
        "fonts/PTSans-Regular.ttf",
        "fonts/Roboto-Regular.ttf",
        "fonts/TwitterColorEmoji.ttf",
        "fonts/Ubuntu-Regular.ttf",
        "images/bad.svg",
        "images/chinese.svg",
        "images/cylinder.svg",
        "images/diagram.svg",
        "images/docs.svg",
        "images/f2t.jpg",
        "images/glacier.jpg",
        "images/graph.png",
        "images/logo.svg",
        "images/molecular.jpg",
        "images/monkey.svg",
        "images/pattern.svg",
        "images/rhino.png",
        "images/tetrahedron.svg",
        "images/tiger.jpg",
        "images/typing.jpg",
        "plugins/hello.wasm",
        "plugins/plugin-oob.wasm",
        "screenshots/1-writing-app.png",
        "screenshots/1-writing-upload.png",
        "screenshots/2-formatting-autocomplete.png",
        "screenshots/3-advanced-paper.png",
        "screenshots/3-advanced-team-settings.png",
        "syntaxes/SExpressions.sublime-syntax",
        "text/bad.txt",
        "text/example.html",
        "text/hello.txt",
        "themes/halcyon.tmTheme",
    ]
}

/// For ASCII text, the byte-wise order of the encodings follows the
/// characters: equal up to position `k`, then `a` ends or is smaller there.
proof fn lemma_ascii_before(a: Seq<char>, b: Seq<char>, k: int)
    requires
        is_ascii_chars(a),
        is_ascii_chars(b),
        0 <= k <= a.len(),
        k < b.len(),
        forall|j: int| 0 <= j < k ==> a[j] == b[j],
        k == a.len() || (a[k] as u32) < (b[k] as u32),
    ensures
        lex_lt(encode_utf8(a), encode_utf8(b)),
{
    is_ascii_chars_encode_utf8(a);
    is_ascii_chars_encode_utf8(b);
    is_ascii_chars_nat_bound(a);
    is_ascii_chars_nat_bound(b);
    let x = encode_utf8(a);
    let y = encode_utf8(b);

    lemma_lex_lt_at(x, y, k);
}

/// The encoding of ASCII text without a backslash holds no backslash byte.
proof fn lemma_ascii_no_backslash(a: Seq<char>)
    requires
        is_ascii_chars(a),
        forall|i: int| 0 <= i < a.len() ==> a[i] != '\\',
    ensures
        !encode_utf8(a).contains(BACKSLASH),
{
    is_ascii_chars_encode_utf8(a);
    is_ascii_chars_nat_bound(a);
    if encode_utf8(a).contains(BACKSLASH) {
        let j = choose|j: int| 0 <= j < encode_utf8(a).len() && encode_utf8(a)[j] == BACKSLASH;
        assert(a[j] as u8 == BACKSLASH);
    }
}

proof fn lemma_paths_0_to_10()
    ensures
        forall|i: int| 0 <= i < 10 ==> lex_lt(#[trigger] encoded_paths()[i], encoded_paths()[i + 1]),
        forall|i: int| 0 <= i < 10 ==> !(#[trigger] encoded_paths()[i]).contains(BACKSLASH),
{
    let s = bundled_paths();
    reveal_strlit("bib/bad.bib");
    reveal_strlit("bib/scifi-authors.yaml");
    reveal_strlit("bib/works.bib");
    reveal_strlit("bib/works_too.bib");
    reveal_strlit("data/bad.csv");
    reveal_strlit("data/bad.json");
    reveal_strlit("data/bad.toml");
    reveal_strlit("data/bad.xml");
    reveal_strlit("data/bad.yaml");
    reveal_strlit("data/big-number.json");
    reveal_strlit("data/details.toml");
    lemma_ascii_before(s[0], s[1], 4);
    lemma_ascii_before(s[1], s[2], 4);
    lemma_ascii_before(s[2], s[3], 9);
    lemma_ascii_before(s[3], s[4], 0);
    lemma_ascii_before(s[4], s[5], 9);
    lemma_ascii_before(s[5], s[6], 9);
    lemma_ascii_before(s[6], s[7], 9);
    lemma_ascii_before(s[7], s[8], 9);
    lemma_ascii_before(s[8], s[9], 6);
    lemma_ascii_before(s[9], s[10], 5);
    lemma_ascii_no_backslash(s[0]);
    lemma_ascii_no_backslash(s[1]);
    lemma_ascii_no_backslash(s[2]);
    lemma_ascii_no_backslash(s[3]);
    lemma_ascii_no_backslash(s[4]);
    lemma_ascii_no_backslash(s[5]);
    lemma_ascii_no_backslash(s[6]);
    lemma_ascii_no_backslash(s[7]);
    lemma_ascii_no_backslash(s[8]);
    lemma_ascii_no_backslash(s[9]);
}

proof fn lemma_paths_10_to_20()
    ensures
        forall|i: int| 10 <= i < 20 ==> lex_lt(#[trigger] encoded_paths()[i], encoded_paths()[i + 1]),
        forall|i: int| 10 <= i < 20 ==> !(#[trigger] encoded_paths()[i]).contains(BACKSLASH),
{
    let s = bundled_paths();
    reveal_strlit("data/details.toml");
    reveal_strlit("data/example.csv");
    reveal_strlit("data/example.xml");
    reveal_strlit("data/hello.xml");
    reveal_strlit("data/monday.json");
    reveal_strlit("data/moore.csv");
    reveal_strlit("data/toml-types.toml");
    reveal_strlit("data/tuesday.json");
    reveal_strlit("data/yaml-types.yaml");
    reveal_strlit("data/zoo.csv");
    reveal_strlit("data/zoo.json");
    lemma_ascii_before(s[10], s[11], 5);
    lemma_ascii_before(s[11], s[12], 13);
    lemma_ascii_before(s[12], s[13], 5);
    lemma_ascii_before(s[13], s[14], 5);
    lemma_ascii_before(s[14], s[15], 7);
    lemma_ascii_before(s[15], s[16], 5);
    lemma_ascii_before(s[16], s[17], 6);
    lemma_ascii_before(s[17], s[18], 5);
    lemma_ascii_before(s[18], s[19], 5);
    lemma_ascii_before(s[19], s[20], 9);
    lemma_ascii_no_backslash(s[10]);
    lemma_ascii_no_backslash(s[11]);
    lemma_ascii_no_backslash(s[12]);
    lemma_ascii_no_backslash(s[13]);
    lemma_ascii_no_backslash(s[14]);
    lemma_ascii_no_backslash(s[15]);
    lemma_ascii_no_backslash(s[16]);
    lemma_ascii_no_backslash(s[17]);
    lemma_ascii_no_backslash(s[18]);
    lemma_ascii_no_backslash(s[19]);
}

proof fn lemma_paths_20_to_30()
    ensures
        forall|i: int| 20 <= i < 30 ==> lex_lt(#[trigger] encoded_paths()[i], encoded_paths()[i + 1]),
        forall|i: int| 20 <= i < 30 ==> !(#[trigger] encoded_paths()[i]).contains(BACKSLASH),
{
    let s = bundled_paths();
    reveal_strlit("data/zoo.json");
    reveal_strlit("fonts/FiraMath-Regular.otf");
    reveal_strlit("fonts/IBMPlexSans-Bold.ttf");
    reveal_strlit("fonts/IBMPlexSans-Light.ttf");
    reveal_strlit("fonts/IBMPlexSans-Medium.ttf");
    reveal_strlit("fonts/IBMPlexSans-Regular.ttf");
    reveal_strlit("fonts/IBMPlexSansCondensed-Regular.ttf");
    reveal_strlit("fonts/IBMPlexSansDevanagari-Regular.ttf");
    reveal_strlit("fonts/IBMPlexSerif-Regular.ttf");
    reveal_strlit("fonts/InriaSerif-Bold.ttf");
    reveal_strlit("fonts/InriaSerif-BoldItalic.ttf");
    lemma_ascii_before(s[20], s[21], 0);
    lemma_ascii_before(s[21], s[22], 6);
    lemma_ascii_before(s[22], s[23], 18);
    lemma_ascii_before(s[23], s[24], 18);
    lemma_ascii_before(s[24], s[25], 18);
    lemma_ascii_before(s[25], s[26], 17);
    lemma_ascii_before(s[26], s[27], 17);
    lemma_ascii_before(s[27], s[28], 14);
    lemma_ascii_before(s[28], s[29], 7);
    lemma_ascii_before(s[29], s[30], 21);
    lemma_ascii_no_backslash(s[20]);
    lemma_ascii_no_backslash(s[21]);
    lemma_ascii_no_backslash(s[22]);
    lemma_ascii_no_backslash(s[23]);
    lemma_ascii_no_backslash(s[24]);
    lemma_ascii_no_backslash(s[25]);
    lemma_ascii_no_backslash(s[26]);
    lemma_ascii_no_backslash(s[27]);
    lemma_ascii_no_backslash(s[28]);
    lemma_ascii_no_backslash(s[29]);
}

proof fn lemma_paths_30_to_40()
    ensures
        forall|i: int| 30 <= i < 40 ==> lex_lt(#[trigger] encoded_paths()[i], encoded_paths()[i + 1]),
        forall|i: int| 30 <= i < 40 ==> !(#[trigger] encoded_paths()[i]).contains(BACKSLASH),
{
    let s = bundled_paths();
    reveal_strlit("fonts/InriaSerif-BoldItalic.ttf");
    reveal_strlit("fonts/InriaSerif-Italic.ttf");
    reveal_strlit("fonts/InriaSerif-Regular.ttf");
    reveal_strlit("fonts/NotoColorEmoji.ttf");
    reveal_strlit("fonts/NotoSansArabic-Regular.ttf");
    reveal_strlit("fonts/NotoSansSymbols2-Regular.ttf");
    reveal_strlit("fonts/NotoSansThai-Regular.ttf");
    reveal_strlit("fonts/NotoSerifCJKjp-Regular.otf");
    reveal_strlit("fonts/NotoSerifCJKkr-Regular.otf");
    reveal_strlit("fonts/NotoSerifCJKsc-Bold.otf");
    reveal_strlit("fonts/NotoSerifCJKsc-Regular.otf");
    lemma_ascii_before(s[30], s[31], 17);
    lemma_ascii_before(s[31], s[32], 17);
    lemma_ascii_before(s[32], s[33], 6);
    lemma_ascii_before(s[33], s[34], 10);
    lemma_ascii_before(s[34], s[35], 14);
    lemma_ascii_before(s[35], s[36], 14);
    lemma_ascii_before(s[36], s[37], 11);
    lemma_ascii_before(s[37], s[38], 18);
    lemma_ascii_before(s[38], s[39], 18);
    lemma_ascii_before(s[39], s[40], 21);
    lemma_ascii_no_backslash(s[30]);
    lemma_ascii_no_backslash(s[31]);
    lemma_ascii_no_backslash(s[32]);
    lemma_ascii_no_backslash(s[33]);
    lemma_ascii_no_backslash(s[34]);
    lemma_ascii_no_backslash(s[35]);
    lemma_ascii_no_backslash(s[36]);
    lemma_ascii_no_backslash(s[37]);
    lemma_ascii_no_backslash(s[38]);
    lemma_ascii_no_backslash(s[39]);
}

proof fn lemma_paths_40_to_50()
    ensures
        forall|i: int| 40 <= i < 50 ==> lex_lt(#[trigger] encoded_paths()[i], encoded_paths()[i + 1]),
        forall|i: int| 40 <= i < 50 ==> !(#[trigger] encoded_paths()[i]).contains(BACKSLASH),
{
    let s = bundled_paths();
    reveal_strlit("fonts/NotoSerifCJKsc-Regular.otf");
    reveal_strlit("fonts/NotoSerifCJKtc-Bold.otf");
    reveal_strlit("fonts/NotoSerifCJKtc-Regular.otf");
    reveal_strlit("fonts/NotoSerifHebrew-Bold.ttf");
    reveal_strlit("fonts/NotoSerifHebrew-Regular.ttf");
    reveal_strlit("fonts/PTSans-Regular.ttf");
    reveal_strlit("fonts/Roboto-Regular.ttf");
    reveal_strlit("fonts/TwitterColorEmoji.ttf");
    reveal_strlit("fonts/Ubuntu-Regular.ttf");
    reveal_strlit("images/bad.svg");
    reveal_strlit("images/chinese.svg");
    lemma_ascii_before(s[40], s[41], 18);
    lemma_ascii_before(s[41], s[42], 21);
    lemma_ascii_before(s[42], s[43], 15);
    lemma_ascii_before(s[43], s[44], 22);
    lemma_ascii_before(s[44], s[45], 6);
    lemma_ascii_before(s[45], s[46], 6);
    lemma_ascii_before(s[46], s[47], 6);
    lemma_ascii_before(s[47], s[48], 6);
    lemma_ascii_before(s[48], s[49], 0);
    lemma_ascii_before(s[49], s[50], 7);
    lemma_ascii_no_backslash(s[40]);
    lemma_ascii_no_backslash(s[41]);
    lemma_ascii_no_backslash(s[42]);
    lemma_ascii_no_backslash(s[43]);
    lemma_ascii_no_backslash(s[44]);
    lemma_ascii_no_backslash(s[45]);
    lemma_ascii_no_backslash(s[46]);
    lemma_ascii_no_backslash(s[47]);
    lemma_ascii_no_backslash(s[48]);
    lemma_ascii_no_backslash(s[49]);
}

proof fn lemma_paths_50_to_60()
    ensures
        forall|i: int| 50 <= i < 60 ==> lex_lt(#[trigger] encoded_paths()[i], encoded_paths()[i + 1]),
        forall|i: int| 50 <= i < 60 ==> !(#[trigger] encoded_paths()[i]).contains(BACKSLASH),
{
    let s = bundled_paths();
    reveal_strlit("images/chinese.svg");
    reveal_strlit("images/cylinder.svg");
    reveal_strlit("images/diagram.svg");
    reveal_strlit("images/docs.svg");
    reveal_strlit("images/f2t.jpg");
    reveal_strlit("images/glacier.jpg");
    reveal_strlit("images/graph.png");
    reveal_strlit("images/logo.svg");
    reveal_strlit("images/molecular.jpg");
    reveal_strlit("images/monkey.svg");
    reveal_strlit("images/pattern.svg");
    lemma_ascii_before(s[50], s[51], 8);
    lemma_ascii_before(s[51], s[52], 7);
    lemma_ascii_before(s[52], s[53], 8);
    lemma_ascii_before(s[53], s[54], 7);
    lemma_ascii_before(s[54], s[55], 7);
    lemma_ascii_before(s[55], s[56], 8);
    lemma_ascii_before(s[56], s[57], 7);
    lemma_ascii_before(s[57], s[58], 7);
    lemma_ascii_before(s[58], s[59], 9);
    lemma_ascii_before(s[59], s[60], 7);
    lemma_ascii_no_backslash(s[50]);
    lemma_ascii_no_backslash(s[51]);
    lemma_ascii_no_backslash(s[52]);
    lemma_ascii_no_backslash(s[53]);
    lemma_ascii_no_backslash(s[54]);
    lemma_ascii_no_backslash(s[55]);
    lemma_ascii_no_backslash(s[56]);
    lemma_ascii_no_backslash(s[57]);
    lemma_ascii_no_backslash(s[58]);
    lemma_ascii_no_backslash(s[59]);
}

proof fn lemma_paths_60_to_70()
    ensures
        forall|i: int| 60 <= i < 70 ==> lex_lt(#[trigger] encoded_paths()[i], encoded_paths()[i + 1]),
        forall|i: int| 60 <= i < 70 ==> !(#[trigger] encoded_paths()[i]).contains(BACKSLASH),
{
    let s = bundled_paths();
    reveal_strlit("images/pattern.svg");
    reveal_strlit("images/rhino.png");
    reveal_strlit("images/tetrahedron.svg");
    reveal_strlit("images/tiger.jpg");
    reveal_strlit("images/typing.jpg");
    reveal_strlit("plugins/hello.wasm");
    reveal_strlit("plugins/plugin-oob.wasm");
    reveal_strlit("screenshots/1-writing-app.png");
    reveal_strlit("screenshots/1-writing-upload.png");
    reveal_strlit("screenshots/2-formatting-autocomplete.png");
    reveal_strlit("screenshots/3-advanced-paper.png");
    lemma_ascii_before(s[60], s[61], 7);
    lemma_ascii_before(s[61], s[62], 7);
    lemma_ascii_before(s[62], s[63], 8);
    lemma_ascii_before(s[63], s[64], 8);
    lemma_ascii_before(s[64], s[65], 0);
    lemma_ascii_before(s[65], s[66], 8);
    lemma_ascii_before(s[66], s[67], 0);
    lemma_ascii_before(s[67], s[68], 22);
    lemma_ascii_before(s[68], s[69], 12);
    lemma_ascii_before(s[69], s[70], 12);
    lemma_ascii_no_backslash(s[60]);
    lemma_ascii_no_backslash(s[61]);
    lemma_ascii_no_backslash(s[62]);
    lemma_ascii_no_backslash(s[63]);
    lemma_ascii_no_backslash(s[64]);
    lemma_ascii_no_backslash(s[65]);
    lemma_ascii_no_backslash(s[66]);
    lemma_ascii_no_backslash(s[67]);
    lemma_ascii_no_backslash(s[68]);
    lemma_ascii_no_backslash(s[69]);
}

proof fn lemma_paths_70_to_77()
    ensures
        forall|i: int| 70 <= i < 76 ==> lex_lt(#[trigger] encoded_paths()[i], encoded_paths()[i + 1]),
        forall|i: int| 70 <= i < 77 ==> !(#[trigger] encoded_paths()[i]).contains(BACKSLASH),
{
    let s = bundled_paths();
    reveal_strlit("screenshots/3-advanced-paper.png");
    reveal_strlit("screenshots/3-advanced-team-settings.png");
    reveal_strlit("syntaxes/SExpressions.sublime-syntax");
    reveal_strlit("text/bad.txt");
    reveal_strlit("text/example.html");
    reveal_strlit("text/hello.txt");
    reveal_strlit("themes/halcyon.tmTheme");
    lemma_ascii_before(s[70], s[71], 23);
    lemma_ascii_before(s[71], s[72], 1);
    lemma_ascii_before(s[72], s[73], 0);
    lemma_ascii_before(s[73], s[74], 5);
    lemma_ascii_before(s[74], s[75], 5);
    lemma_ascii_before(s[75], s[76], 1);
    lemma_ascii_no_backslash(s[70]);
    lemma_ascii_no_backslash(s[71]);
    lemma_ascii_no_backslash(s[72]);
    lemma_ascii_no_backslash(s[73]);
    lemma_ascii_no_backslash(s[74]);
    lemma_ascii_no_backslash(s[75]);
    lemma_ascii_no_backslash(s[76]);
}

/// The bundled paths, encoded, strictly ascend and hold no backslash.
pub proof fn lemma_bundled_paths_well_formed()
    ensures
        encoded_paths().len() == BUNDLED_COUNT,
        forall|i: int, j: int|
            0 <= i < j < encoded_paths().len() ==> lex_lt(
                #[trigger] encoded_paths()[i],
                #[trigger] encoded_paths()[j],
            ),
        forall|i: int|
            0 <= i < encoded_paths().len() ==> !(#[trigger] encoded_paths()[i]).contains(BACKSLASH),
{
    lemma_paths_0_to_10();
    lemma_paths_10_to_20();
    lemma_paths_20_to_30();
    lemma_paths_30_to_40();
    lemma_paths_40_to_50();
    lemma_paths_50_to_60();
    lemma_paths_60_to_70();
    lemma_paths_70_to_77();
    assert forall|i: int| 0 <= i < encoded_paths().len() - 1 implies lex_lt(
        #[trigger] encoded_paths()[i],
        encoded_paths()[i + 1],
    ) by {}
    lemma_sorted_from_neighbours(encoded_paths());
}

} // verus!
