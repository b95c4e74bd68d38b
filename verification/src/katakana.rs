//! Full-width katakana to half-width, so that Japanese titles take half the
//! room on a line.
//!
//! The text is taken apart into grapheme clusters. A cluster that is one
//! glyph of the table is replaced by the glyph in the same row of the
//! half-width table; every other cluster is kept as it is.
use unicode_segmentation::UnicodeSegmentation;
use vstd::prelude::*;

verus! {

/// The number of rows of the table.
pub const GLYPHS: usize = 63;

/// The full-width glyphs, row by row.
pub const FULL_WIDTH: [char; 63] = [
    '\u{3002}', '\u{300C}', '\u{300D}', '\u{3001}', '\u{30FB}', '\u{30F2}', '\u{30A1}', '\u{30A3}', '\u{30A5}',  //  。  「  」  、  ・  ヲ  ァ  ィ  ゥ
    '\u{30A7}', '\u{30A9}', '\u{30E3}', '\u{30E5}', '\u{30E7}', '\u{30C3}', '\u{30FC}', '\u{30A2}', '\u{30A4}',  //  ェ  ォ  ャ  ュ  ョ  ッ  ー  ア  イ
    '\u{30A6}', '\u{30A8}', '\u{30AA}', '\u{30AB}', '\u{30AD}', '\u{30AF}', '\u{30B1}', '\u{30B3}', '\u{30B5}',  //  ウ  エ  オ  カ  キ  ク  ケ  コ  サ
    '\u{30B7}', '\u{30B9}', '\u{30BB}', '\u{30BD}', '\u{30BF}', '\u{30C1}', '\u{30C4}', '\u{30C6}', '\u{30C8}',  //  シ  ス  セ  ソ  タ  チ  ツ  テ  ト
    '\u{30CA}', '\u{30CB}', '\u{30CC}', '\u{30CD}', '\u{30CE}', '\u{30CF}', '\u{30D2}', '\u{30D5}', '\u{30D8}',  //  ナ  ニ  ヌ  ネ  ノ  ハ  ヒ  フ  ヘ
    '\u{30DB}', '\u{30DE}', '\u{30DF}', '\u{30E0}', '\u{30E1}', '\u{30E2}', '\u{30E4}', '\u{30E6}', '\u{30E8}',  //  ホ  マ  ミ  ム  メ  モ  ヤ  ユ  ヨ
    '\u{30E9}', '\u{30EA}', '\u{30EB}', '\u{30EC}', '\u{30ED}', '\u{30EF}', '\u{30F3}', '\u{309B}', '\u{309C}',  //  ラ  リ  ル  レ  ロ  ワ  ン  ゛  ゜
];

/// The half-width glyphs, row by row: the code points from U+FF61 on.
pub const HALF_WIDTH: [char; 63] = [
    '\u{FF61}', '\u{FF62}', '\u{FF63}', '\u{FF64}', '\u{FF65}', '\u{FF66}', '\u{FF67}', '\u{FF68}', '\u{FF69}',  //  ｡  ｢  ｣  ､  ･  ｦ  ｧ  ｨ  ｩ
    '\u{FF6A}', '\u{FF6B}', '\u{FF6C}', '\u{FF6D}', '\u{FF6E}', '\u{FF6F}', '\u{FF70}', '\u{FF71}', '\u{FF72}',  //  ｪ  ｫ  ｬ  ｭ  ｮ  ｯ  ｰ  ｱ  ｲ
    '\u{FF73}', '\u{FF74}', '\u{FF75}', '\u{FF76}', '\u{FF77}', '\u{FF78}', '\u{FF79}', '\u{FF7A}', '\u{FF7B}',  //  ｳ  ｴ  ｵ  ｶ  ｷ  ｸ  ｹ  ｺ  ｻ
    '\u{FF7C}', '\u{FF7D}', '\u{FF7E}', '\u{FF7F}', '\u{FF80}', '\u{FF81}', '\u{FF82}', '\u{FF83}', '\u{FF84}',  //  ｼ  ｽ  ｾ  ｿ  ﾀ  ﾁ  ﾂ  ﾃ  ﾄ
    '\u{FF85}', '\u{FF86}', '\u{FF87}', '\u{FF88}', '\u{FF89}', '\u{FF8A}', '\u{FF8B}', '\u{FF8C}', '\u{FF8D}',  //  ﾅ  ﾆ  ﾇ  ﾈ  ﾉ  ﾊ  ﾋ  ﾌ  ﾍ
    '\u{FF8E}', '\u{FF8F}', '\u{FF90}', '\u{FF91}', '\u{FF92}', '\u{FF93}', '\u{FF94}', '\u{FF95}', '\u{FF96}',  //  ﾎ  ﾏ  ﾐ  ﾑ  ﾒ  ﾓ  ﾔ  ﾕ  ﾖ
    '\u{FF97}', '\u{FF98}', '\u{FF99}', '\u{FF9A}', '\u{FF9B}', '\u{FF9C}', '\u{FF9D}', '\u{FF9E}', '\u{FF9F}',  //  ﾗ  ﾘ  ﾙ  ﾚ  ﾛ  ﾜ  ﾝ  ﾞ  ﾟ
];

/// `glyphs` holds `c`.
pub open spec fn has_row(glyphs: Seq<char>, c: char) -> bool {
    exists|i: int| 0 <= i < glyphs.len() && glyphs[i] == c
}

/// `i` is the first place of `c` in `glyphs`.
pub open spec fn is_row_of(glyphs: Seq<char>, c: char, i: int) -> bool {
    &&& 0 <= i < glyphs.len()
    &&& glyphs[i] == c
    &&& forall|j: int| 0 <= j < i ==> glyphs[j] != c
}

/// The first place of `c` in `glyphs`, for a glyph that `glyphs` holds.
pub open spec fn row_of(glyphs: Seq<char>, c: char) -> int {
    choose|i: int| is_row_of(glyphs, c, i)
}

/// The half-width glyph of a full-width glyph of the table.
pub open spec fn half_width_of(c: char) -> Option<char> {
    if has_row(FULL_WIDTH@, c) {
        Some(HALF_WIDTH@[row_of(FULL_WIDTH@, c)])
    } else {
        None
    }
}

/// The full-width glyph of a half-width glyph of the table.
pub open spec fn full_width_of(c: char) -> Option<char> {
    if has_row(HALF_WIDTH@, c) {
        Some(FULL_WIDTH@[row_of(HALF_WIDTH@, c)])
    } else {
        None
    }
}

/// What one grapheme cluster becomes: the half-width glyph, where the
/// cluster is a single glyph of the table, and the cluster itself otherwise.
pub open spec fn convert_cluster(cluster: Seq<char>) -> Seq<char> {
    if cluster.len() == 1 && half_width_of(cluster[0]) is Some {
        seq![half_width_of(cluster[0])->Some_0]
    } else {
        cluster
    }
}

/// What a text becomes, given its clusters: each cluster converted, in order.
pub open spec fn convert_clusters(clusters: Seq<Seq<char>>) -> Seq<char> {
    clusters.map_values(|cluster: Seq<char>| convert_cluster(cluster)).flatten()
}

/// The extended grapheme clusters of a text, in order.
pub uninterp spec fn grapheme_clusters(text: Seq<char>) -> Seq<Seq<char>>;

/// `UnicodeSegmentation::graphemes` with extended clusters: the clusters are
/// consecutive pieces of the text, and together they are the text.
#[verifier::external_body]
fn graphemes(text: &str) -> (clusters: Vec<Vec<char>>)
    ensures
        clusters.deep_view() == grapheme_clusters(text@),
        clusters.deep_view().flatten() == text@,
{
    text.graphemes(true).map(|cluster| cluster.chars().collect()).collect()
}

/// `String::push` of std: the character is appended to the text.
pub assume_specification[ String::push ](s: &mut String, ch: char)
    ensures
        final(s)@ == old(s)@.push(ch),
;

proof fn lemma_row_is_unique(glyphs: Seq<char>, c: char, i: int)
    requires
        is_row_of(glyphs, c, i),
    ensures
        has_row(glyphs, c),
        row_of(glyphs, c) == i,
{
    let k = row_of(glyphs, c);
    assert(is_row_of(glyphs, c, k));
    if k < i {
        assert(glyphs[k] != c);
    } else if i < k {
        assert(glyphs[i] != c);
    }
}

/// The first place of `c` in a table, if it holds `c`.
fn find_row(table: &[char; 63], c: char) -> (row: Option<usize>)
    ensures
        match row {
            Some(i) => is_row_of(table@, c, i as int),
            None => !has_row(table@, c),
        },
{
    let mut i: usize = 0;
    while i < GLYPHS
        invariant
            i <= GLYPHS,
            table@.len() == GLYPHS,
            forall|j: int| 0 <= j < i ==> table@[j] != c,
        decreases GLYPHS - i,
    {
        if table[i] == c {
            return Some(i);
        }
        i += 1;
    }
    None
}

/// The half-width glyph of `c`, if `c` is a full-width glyph of the table.
pub fn to_half_width(c: char) -> (half: Option<char>)
    ensures
        half == half_width_of(c),
{
    match find_row(&FULL_WIDTH, c) {
        Some(i) => {
            proof {
                lemma_row_is_unique(FULL_WIDTH@, c, i as int);
            }
            Some(HALF_WIDTH[i])
        },
        None => None,
    }
}

/// The full-width glyph of `c`, if `c` is a half-width glyph of the table.
pub fn to_full_width(c: char) -> (full: Option<char>)
    ensures
        full == full_width_of(c),
{
    match find_row(&HALF_WIDTH, c) {
        Some(i) => {
            proof {
                lemma_row_is_unique(HALF_WIDTH@, c, i as int);
            }
            Some(FULL_WIDTH[i])
        },
        None => None,
    }
}

proof fn lemma_convert_push(clusters: Seq<Seq<char>>, last: Seq<char>)
    ensures
        convert_clusters(clusters.push(last)) == convert_clusters(clusters) + convert_cluster(last),
{
    let convert = |cluster: Seq<char>| convert_cluster(cluster);
    assert(clusters.push(last).map_values(convert) =~= clusters.map_values(convert).push(
        convert_cluster(last),
    ));
    clusters.map_values(convert).lemma_flatten_push(convert_cluster(last));
}

/// Conversion keeps the number of characters of a text.
pub proof fn lemma_convert_keeps_length(clusters: Seq<Seq<char>>)
    ensures
        convert_clusters(clusters).len() == clusters.flatten().len(),
    decreases clusters.len(),
{
    if clusters.len() == 0 {
        assert(clusters.map_values(|cluster: Seq<char>| convert_cluster(cluster)) =~= Seq::<
            Seq<char>,
        >::empty());
    } else {
        let front = clusters.drop_last();
        assert(clusters =~= front.push(clusters.last()));
        lemma_convert_keeps_length(front);
        lemma_convert_push(front, clusters.last());
        front.lemma_flatten_push(clusters.last());
    }
}

/// No row of the full-width table holds an ASCII character.
pub proof fn lemma_ascii_has_no_row(c: char)
    requires
        (c as u32) < 128,
    ensures
        !has_row(FULL_WIDTH@, c),
        half_width_of(c) is None,
{
    assert forall|i: int| 0 <= i < 63 implies FULL_WIDTH@[i] != c by {
        lemma_full_width_codes(i);
    }
}

proof fn lemma_full_width_codes(i: int)
    requires
        0 <= i < 63,
    ensures
        FULL_WIDTH@[i] as u32 >= 0x3001,
{
}

/// Row `i` of the half-width table holds the code point `0xFF61 + i`.
proof fn lemma_half_width_codes(i: int)
    requires
        0 <= i < 63,
    ensures
        HALF_WIDTH@[i] as u32 == 0xFF61 + i,
{
}

/// No glyph stands twice in the full-width table.
proof fn lemma_full_width_distinct(i: int, j: int)
    requires
        0 <= i < j < 63,
    ensures
        FULL_WIDTH@[i] != FULL_WIDTH@[j],
{
}

/// The table maps row to row: the full-width glyph of a row becomes the
/// half-width glyph of the same row, and the reverse table takes it back.
pub proof fn lemma_table_row(i: int)
    requires
        0 <= i < 63,
    ensures
        half_width_of(FULL_WIDTH@[i]) == Some(HALF_WIDTH@[i]),
        full_width_of(HALF_WIDTH@[i]) == Some(FULL_WIDTH@[i]),
{
    assert(is_row_of(FULL_WIDTH@, FULL_WIDTH@[i], i)) by {
        assert forall|j: int| 0 <= j < i implies FULL_WIDTH@[j] != FULL_WIDTH@[i] by {
            lemma_full_width_distinct(j, i);
        }
    }
    lemma_row_is_unique(FULL_WIDTH@, FULL_WIDTH@[i], i);
    lemma_half_then_full(FULL_WIDTH@[i]);
}

/// The reverse table undoes the table: a glyph of the full-width table is
/// recovered from its half-width glyph.
pub proof fn lemma_half_then_full(c: char)
    requires
        has_row(FULL_WIDTH@, c),
    ensures
        half_width_of(c) is Some,
        full_width_of(half_width_of(c)->Some_0) == Some(c),
{
    let i = row_of(FULL_WIDTH@, c);
    assert(is_row_of(FULL_WIDTH@, c, i)) by {
        let k = choose|k: int| 0 <= k < FULL_WIDTH@.len() && FULL_WIDTH@[k] == c;
        lemma_first_row_exists(FULL_WIDTH@, c, k);
    }
    let h = HALF_WIDTH@[i];
    assert(is_row_of(HALF_WIDTH@, h, i)) by {
        lemma_half_width_codes(i);
        assert forall|j: int| 0 <= j < i implies HALF_WIDTH@[j] != h by {
            lemma_half_width_codes(j);
        }
    }
    lemma_row_is_unique(HALF_WIDTH@, h, i);
}

proof fn lemma_first_row_exists(glyphs: Seq<char>, c: char, k: int)
    requires
        0 <= k < glyphs.len(),
        glyphs[k] == c,
    ensures
        exists|i: int| is_row_of(glyphs, c, i),
    decreases k,
{
    if forall|j: int| 0 <= j < k ==> glyphs[j] != c {
        assert(is_row_of(glyphs, c, k));
    } else {
        let j = choose|j: int| 0 <= j < k && glyphs[j] == c;
        lemma_first_row_exists(glyphs, c, j);
    }
}

/// A text of glyphs of the table, each a cluster of its own, becomes a text
/// of as many glyphs: each is the half-width glyph of the one in its place,
/// and the reverse table recovers from it the glyph that it came from.
pub proof fn lemma_table_text_round_trips(clusters: Seq<Seq<char>>)
    requires
        forall|k: int|
            0 <= k < clusters.len() ==> (#[trigger] clusters[k]).len() == 1 && has_row(
                FULL_WIDTH@,
                clusters[k][0],
            ),
    ensures
        convert_clusters(clusters).len() == clusters.len(),
        forall|k: int|
            0 <= k < clusters.len() ==> {
                &&& half_width_of(clusters[k][0]) == Some(#[trigger] convert_clusters(clusters)[k])
                &&& full_width_of(convert_clusters(clusters)[k]) == Some(clusters[k][0])
            },
    decreases clusters.len(),
{
    if clusters.len() == 0 {
        assert(clusters.map_values(|cluster: Seq<char>| convert_cluster(cluster)) =~= Seq::<
            Seq<char>,
        >::empty());
    } else {
        let front = clusters.drop_last();
        let last = clusters.last();
        assert(clusters =~= front.push(last));
        assert forall|k: int| 0 <= k < front.len() implies (#[trigger] front[k]).len() == 1
            && has_row(FULL_WIDTH@, front[k][0]) by {
            assert(front[k] == clusters[k]);
        }
        lemma_table_text_round_trips(front);
        lemma_convert_push(front, last);
        lemma_half_then_full(last[0]);
        assert forall|k: int| 0 <= k < clusters.len() implies {
            &&& half_width_of(clusters[k][0]) == Some(#[trigger] convert_clusters(clusters)[k])
            &&& full_width_of(convert_clusters(clusters)[k]) == Some(clusters[k][0])
        } by {
            if k < front.len() {
                assert(front[k] == clusters[k]);
                assert(convert_clusters(clusters)[k] == convert_clusters(front)[k]);
            }
        }
    }
}

/// A text of ASCII characters.
pub open spec fn is_ascii_text(text: Seq<char>) -> bool {
    forall|i: int| 0 <= i < text.len() ==> (#[trigger] text[i] as u32) < 128
}

/// A text in which no glyph of the full-width table stands.
pub open spec fn has_no_table_glyph(text: Seq<char>) -> bool {
    forall|i: int| 0 <= i < text.len() ==> !has_row(FULL_WIDTH@, #[trigger] text[i])
}

/// A text of ASCII characters holds no glyph of the table.
pub proof fn lemma_ascii_text_has_no_table_glyph(text: Seq<char>)
    requires
        is_ascii_text(text),
    ensures
        has_no_table_glyph(text),
{
    assert forall|i: int| 0 <= i < text.len() implies !has_row(FULL_WIDTH@, #[trigger] text[i]) by {
        lemma_ascii_has_no_row(text[i]);
    }
}

/// A text in which no glyph of the table stands is kept as it is, however
/// it falls into clusters.
pub proof fn lemma_text_without_table_glyph_stays(clusters: Seq<Seq<char>>)
    requires
        has_no_table_glyph(clusters.flatten()),
    ensures
        convert_clusters(clusters) == clusters.flatten(),
    decreases clusters.len(),
{
    if clusters.len() == 0 {
        assert(clusters.map_values(|cluster: Seq<char>| convert_cluster(cluster)) =~= Seq::<
            Seq<char>,
        >::empty());
        assert(clusters =~= Seq::<Seq<char>>::empty());
    } else {
        let front = clusters.drop_last();
        let last = clusters.last();
        assert(clusters =~= front.push(last));
        front.lemma_flatten_push(last);
        let whole = clusters.flatten();
        assert(whole == front.flatten() + last);
        assert forall|i: int| 0 <= i < front.flatten().len() implies !has_row(
            FULL_WIDTH@,
            #[trigger] front.flatten()[i],
        ) by {
            assert(whole[i] == front.flatten()[i]);
        }
        lemma_text_without_table_glyph_stays(front);
        lemma_convert_push(front, last);
        if last.len() == 1 {
            assert(whole[front.flatten().len() as int] == last[0]);
        }
    }
}

/// Converts a text that has been taken apart into its clusters.
pub fn normalize_clusters(clusters: &Vec<Vec<char>>) -> (half: String)
    ensures
        half@ == convert_clusters(clusters.deep_view()),
{
    let mut half = String::new();
    let mut i: usize = 0;
    proof {
        assert(clusters.deep_view().take(0) =~= Seq::<Seq<char>>::empty());
        assert(Seq::<Seq<char>>::empty().map_values(|cluster: Seq<char>| convert_cluster(cluster))
            =~= Seq::<Seq<char>>::empty());
    }
    while i < clusters.len()
        invariant
            i <= clusters.len(),
            half@ == convert_clusters(clusters.deep_view().take(i as int)),
        decreases clusters.len() - i,
    {
        let cluster = &clusters[i];
        proof {
            let all = clusters.deep_view();
            assert(all[i as int] =~= cluster@);
            assert(all.take(i + 1) =~= all.take(i as int).push(cluster@));
            lemma_convert_push(all.take(i as int), cluster@);
        }
        if cluster.len() == 1 {
            let c = cluster[0];
            if (c as u32) < 128 {
                // An ASCII character is in no row: no need to search.
                proof {
                    lemma_ascii_has_no_row(c);
                }
                half.push(c);
            } else {
                match to_half_width(c) {
                    Some(h) => half.push(h),
                    None => half.push(c),
                }
            }
            assert(half@ =~= convert_clusters(clusters.deep_view().take(i as int))
                + convert_cluster(cluster@));
        } else {
            let ghost before = half@;
            let mut j: usize = 0;
            while j < cluster.len()
                invariant
                    j <= cluster.len(),
                    half@ == before + cluster@.take(j as int),
                decreases cluster.len() - j,
            {
                half.push(cluster[j]);
                proof {
                    assert(cluster@.take(j + 1) =~= cluster@.take(j as int).push(cluster@[j as int]));
                }
                j += 1;
            }
            assert(cluster@.take(j as int) =~= cluster@);
        }
        i += 1;
    }
    proof {
        assert(clusters.deep_view().take(i as int) =~= clusters.deep_view());
    }
    half
}

/// What a text becomes: its clusters, each converted.
pub open spec fn half_width(text: Seq<char>) -> Seq<char> {
    convert_clusters(grapheme_clusters(text))
}

/// Replaces every full-width katakana glyph of the table by its half-width
/// glyph. ASCII and everything else that is in no row stays as it is, and
/// so does a cluster of more than one character. The clusters of a text,
/// joined, are the text; so a text without a glyph of the table comes back
/// unchanged, and a text of ASCII characters is one.
pub fn full_katakana_to_half_katakana(full: &str) -> (half: String)
    ensures
        half@ == half_width(full@),
        half@.len() == full@.len(),
        grapheme_clusters(full@).flatten() == full@,
        has_no_table_glyph(full@) ==> half@ == full@,
        is_ascii_text(full@) ==> half@ == full@,
{
    let clusters = graphemes(full);
    proof {
        lemma_convert_keeps_length(clusters.deep_view());
        if has_no_table_glyph(full@) {
            lemma_text_without_table_glyph_stays(clusters.deep_view());
        }
        if is_ascii_text(full@) {
            lemma_ascii_text_has_no_table_glyph(full@);
        }
    }
    normalize_clusters(&clusters)
}

} // verus!
