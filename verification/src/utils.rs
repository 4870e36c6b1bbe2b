//! Helper functions: Unicode-aware string utilities, path classification
//! for the media library, and small conversions used across the player.

use vstd::prelude::*;

verus! {

/// Whether the characters of `a` equal the characters of `b`.
pub fn eq_str(a: &str, b: &str) -> (r: bool)
    ensures
        r == (a@ == b@),
{
    let an: usize = a.unicode_len();
    let bn: usize = b.unicode_len();
    if an != bn {
        proof {
            assert(a@ != b@);
        }
        return false;
    }
    let mut i: usize = 0;
    while i < an
        invariant
            i <= an,
            an == a@.len(),
            an == b@.len(),
            forall|j: int| 0 <= j < i ==> a@[j] == b@[j],
        decreases an - i,
    {
        if a.get_char(i) != b.get_char(i) {
            proof {
                assert(a@ != b@);
            }
            return false;
        }
        i = i + 1;
    }
    proof {
        assert(a@ =~= b@);
    }
    true
}

/// The last index at which `c` occurs in `s`.
pub open spec fn last_index_of(s: Seq<char>, c: char) -> Option<int>
    decreases s.len(),
{
    if s.len() == 0 {
        None
    } else if s[s.len() - 1] == c {
        Some(s.len() - 1)
    } else {
        last_index_of(s.drop_last(), c)
    }
}

/// Search a string backwards for a character.
pub fn rfind_char(s: &str, c: char) -> (r: Option<usize>)
    ensures
        (match r {
            Some(i) => last_index_of(s@, c) == Some(i as int) && i < s@.len(),
            None => last_index_of(s@, c) is None,
        }),
{
    let n: usize = s.unicode_len();
    proof {
        assert(s@.take(n as int) =~= s@);
    }
    let mut i: usize = n;
    while i > 0
        invariant
            i <= n,
            n == s@.len(),
            last_index_of(s@, c) == last_index_of(s@.take(i as int), c),
        decreases i,
    {
        i = i - 1;
        if s.get_char(i) == c {
            proof {
                assert(s@.take(i + 1).drop_last() =~= s@.take(i as int));
                assert(s@.take(i + 1)[i as int] == s@[i as int]);
                assert(last_index_of(s@.take(i + 1), c) == Some(i as int));
            }
            return Some(i);
        }
        proof {
            assert(s@.take(i + 1).drop_last() =~= s@.take(i as int));
            assert(s@.take(i + 1)[i as int] == s@[i as int]);
        }
    }
    proof {
        assert(s@.take(0) =~= Seq::<char>::empty());
    }
    None
}

/// The extension of a path: the part of its file name after the final
/// dot.  The file name is what follows the last separator; a name without
/// a dot, or whose only dot leads it (a hidden file), has no extension.
pub open spec fn extension_of(s: Seq<char>) -> Option<Seq<char>> {
    let name = match last_index_of(s, '/') {
        Some(i) => s.subrange(i + 1, s.len() as int),
        None => s,
    };
    match last_index_of(name, '.') {
        Some(d) => if d > 0 {
            Some(name.subrange(d + 1, name.len() as int))
        } else {
            None
        },
        None => None,
    }
}

/// The file name of `path` (after the last separator), then its extension
/// (after the final dot), as [`extension_of`] defines it.
pub fn extension(path: &str) -> (r: Option<String>)
    ensures
        (match r {
            Some(e) => extension_of(path@) == Some(e@),
            None => extension_of(path@) is None,
        }),
{
    let n: usize = path.unicode_len();
    let name_start: usize = match rfind_char(path, '/') {
        Some(i) => i + 1,
        None => 0,
    };
    let name: &str = path.substring_char(name_start, n);
    proof {
        assert(name@ =~= (match last_index_of(path@, '/') {
            Some(i) => path@.subrange(i + 1, path@.len() as int),
            None => path@,
        }));
    }
    match rfind_char(name, '.') {
        Some(d) => {
            if d > 0 {
                let m: usize = name.unicode_len();
                Some(String::from_str(name.substring_char(d + 1, m)))
            } else {
                None
            }
        },
        None => None,
    }
}

/// Whether the path's first component is exactly `http` (a degenerate
/// pseudo-path some playlist entries use; a real URL's first component
/// carries its colon and does not match).
pub open spec fn first_component_http(s: Seq<char>) -> bool {
    (match first_index_of(s, '/') {
        Some(i) => s.take(i),
        None => s,
    }) == "http"@
}

/// The first index at which `c` occurs in `s`.
pub open spec fn first_index_of(s: Seq<char>, c: char) -> Option<int>
    decreases s.len(),
{
    if s.len() == 0 {
        None
    } else if s[0] == c {
        Some(0int)
    } else {
        match first_index_of(s.drop_first(), c) {
            Some(i) => Some(i + 1),
            None => None,
        }
    }
}

/// Search a string forwards for a character.
pub fn find_char(s: &str, c: char) -> (r: Option<usize>)
    ensures
        (match r {
            Some(i) => first_index_of(s@, c) == Some(i as int) && i < s@.len(),
            None => first_index_of(s@, c) is None,
        }),
{
    let n: usize = s.unicode_len();
    let mut i: usize = 0;
    while i < n
        invariant
            i <= n,
            n == s@.len(),
            forall|j: int| 0 <= j < i ==> s@[j] != c,
        decreases n - i,
    {
        if s.get_char(i) == c {
            proof {
                lemma_first_index_of_found(s@, c, i as int);
            }
            return Some(i);
        }
        i = i + 1;
    }
    proof {
        lemma_first_index_of_none(s@, c);
    }
    None
}

proof fn lemma_first_index_of_found(s: Seq<char>, c: char, i: int)
    requires
        0 <= i < s.len(),
        s[i] == c,
        forall|j: int| 0 <= j < i ==> s[j] != c,
    ensures
        first_index_of(s, c) == Some(i),
    decreases i,
{
    if i == 0 {
    } else {
        lemma_first_index_of_found(s.drop_first(), c, i - 1);
    }
}

proof fn lemma_first_index_of_none(s: Seq<char>, c: char)
    requires
        forall|j: int| 0 <= j < s.len() ==> s[j] != c,
    ensures
        first_index_of(s, c) is None,
    decreases s.len(),
{
    if s.len() == 0 {
    } else {
        lemma_first_index_of_none(s.drop_first(), c);
    }
}

fn path_starts_http(path: &str) -> (r: bool)
    ensures
        r == first_component_http(path@),
{
    let n: usize = path.unicode_len();
    let first: &str = match find_char(path, '/') {
        Some(i) => path.substring_char(0, i),
        None => path,
    };
    proof {
        assert(first@ =~= (match first_index_of(path@, '/') {
            Some(i) => path@.take(i),
            None => path@,
        }));
    }
    eq_str(first, "http")
}

/// The media file extensions the decode backend supports.
pub open spec fn supported_extension(e: Seq<char>) -> bool {
    ||| e == "mkv"@
    ||| e == "mka"@
    ||| e == "mp3"@
    ||| e == "aiff"@
    ||| e == "flac"@
    ||| e == "m4a"@
    ||| e == "aac"@
    ||| e == "opus"@
    ||| e == "ogg"@
    ||| e == "wav"@
    ||| e == "webm"@
}

pub open spec fn filetype_supported_spec(s: Seq<char>) -> bool {
    ||| first_component_http(s)
    ||| (match extension_of(s) {
        Some(e) => supported_extension(e),
        None => false,
    })
}

/// Whether the file at `current_node` has a media type the playback
/// backend can decode (or is the degenerate `http` pseudo-path).
pub fn filetype_supported(current_node: &str) -> (r: bool)
    ensures
        r == filetype_supported_spec(current_node@),
{
    if path_starts_http(current_node) {
        return true;
    }
    match extension(current_node) {
        Some(ext) => {
            let e = ext.as_str();
            eq_str(e, "mkv") || eq_str(e, "mka") || eq_str(e, "mp3") || eq_str(e, "aiff") || eq_str(
                e,
                "flac",
            ) || eq_str(e, "m4a") || eq_str(e, "aac") || eq_str(e, "opus") || eq_str(e, "ogg")
                || eq_str(e, "wav") || eq_str(e, "webm")
        },
        None => false,
    }
}

/// The playlist-file extensions the library recognizes.
pub open spec fn playlist_extension(e: Seq<char>) -> bool {
    ||| e == "m3u"@
    ||| e == "m3u8"@
    ||| e == "pls"@
    ||| e == "asx"@
    ||| e == "xspf"@
}

pub open spec fn is_playlist_spec(s: Seq<char>) -> bool {
    match extension_of(s) {
        Some(e) => playlist_extension(e),
        None => false,
    }
}

/// Whether the file at `current_node` is a playlist file, by extension.
pub fn is_playlist(current_node: &str) -> (r: bool)
    ensures
        r == is_playlist_spec(current_node@),
{
    match extension(current_node) {
        Some(ext) => {
            let e = ext.as_str();
            eq_str(e, "m3u") || eq_str(e, "m3u8") || eq_str(e, "pls") || eq_str(e, "asx") || eq_str(
                e,
                "xspf",
            )
        },
        None => false,
    }
}

/// What absolutizing `path` against `base` yields: an already absolute
/// path stands as it is; otherwise it is joined to the base with a
/// separator, unless the base already ends in one or is empty.
pub open spec fn absolute_path_base_spec(path: Seq<char>, base: Seq<char>) -> Seq<char> {
    if path.len() > 0 && path[0] == '/' {
        path
    } else if base.len() == 0 {
        path
    } else if base[base.len() - 1] == '/' {
        base + path
    } else {
        base + "/"@ + path
    }
}

/// Absolutize a given path with the given base, which is expected to be
/// absolute.  Unlike a canonicalization this does not touch the
/// filesystem, so the path need not exist yet.
pub fn absolute_path_base(path: &str, base: &str) -> (r: String)
    ensures
        r@ == absolute_path_base_spec(path@, base@),
{
    let pn: usize = path.unicode_len();
    let bn: usize = base.unicode_len();
    if pn > 0 && path.get_char(0) == '/' {
        return String::from_str(path);
    }
    if bn == 0 {
        return String::from_str(path);
    }
    let mut r = String::from_str(base);
    if base.get_char(bn - 1) != '/' {
        r.append("/");
    }
    r.append(path);
    r
}

} // verus!

use pinyin::ToPinyin;
use rand::RngExt as _;
use unicode_segmentation::UnicodeSegmentation;

verus! {

/// The concatenation of a sequence of character sequences.
pub open spec fn concat_all(gs: Seq<Seq<char>>) -> Seq<char>
    decreases gs.len(),
{
    if gs.len() == 0 {
        Seq::empty()
    } else {
        gs[0] + concat_all(gs.drop_first())
    }
}

pub proof fn lemma_concat_all_push(gs: Seq<Seq<char>>, x: Seq<char>)
    ensures
        concat_all(gs.push(x)) == concat_all(gs) + x,
    decreases gs.len(),
{
    if gs.len() == 0 {
        assert(gs.push(x).drop_first() =~= Seq::<Seq<char>>::empty());
        assert(gs.push(x)[0] == x);
        assert(concat_all(gs.push(x)) == x + concat_all(Seq::<Seq<char>>::empty()));
        assert(concat_all(gs.push(x)) =~= concat_all(gs) + x);
    } else {
        assert(gs.push(x).drop_first() =~= gs.drop_first().push(x));
        assert(gs.push(x)[0] == gs[0]);
        assert(concat_all(gs.push(x)) == gs[0] + concat_all(gs.drop_first().push(x)));
        lemma_concat_all_push(gs.drop_first(), x);
        assert(concat_all(gs.push(x)) =~= concat_all(gs) + x);
    }
}

/// The extended grapheme clusters of a string, in order.  They partition
/// the string: concatenated they give the characters back.
pub uninterp spec fn graphemes_of(s: Seq<char>) -> Seq<Seq<char>>;

/// Relies on `unicode_segmentation::UnicodeSegmentation::graphemes` (in
/// extended mode): the extended grapheme clusters of a string depend on
/// its characters alone, and concatenated in order they restore the
/// string.  Segmentation also restricts to cluster-aligned substrings:
/// every rule that joins characters into one cluster reads only material
/// inside that cluster, so a contiguous run of whole clusters segments
/// back into exactly those clusters.
#[verifier::external_body]
fn grapheme_clusters(s: &str) -> (r: Vec<String>)
    ensures
        r.deep_view() == graphemes_of(s@),
        concat_all(r.deep_view()) == s@,
        forall|a: int, b: int|
            0 <= a <= b <= r.deep_view().len() ==> #[trigger] graphemes_of(
                concat_all(r.deep_view().subrange(a, b)),
            ) == r.deep_view().subrange(a, b),
{
    s.graphemes(true).map(|g| g.to_string()).collect()
}

/// The characters a substring by grapheme position holds: the clusters
/// from `start`, taking `length` of them, clipped to the string's end.
pub open spec fn substr_spec(gs: Seq<Seq<char>>, start: int, length: int) -> Seq<char> {
    concat_all(substr_clusters(gs, start, length))
}

/// The clusters a substring by grapheme position takes: at most `length`
/// of them, from `start`, clipped to the string's end.
pub open spec fn substr_clusters(gs: Seq<Seq<char>>, start: int, length: int) -> Seq<Seq<char>> {
    if length <= 0 || start < 0 || start >= gs.len() {
        Seq::empty()
    } else if gs.len() - start < length {
        gs.subrange(start, gs.len() as int)
    } else {
        gs.subrange(start, start + length)
    }
}

/// Creates a string from `start` taking `length`, counted by grapheme
/// clusters.  The result holds the clusters taken and no others: at most
/// `length` of them.
pub fn substr(s: &str, start: usize, length: usize) -> (r: String)
    ensures
        r@ == substr_spec(graphemes_of(s@), start as int, length as int),
        graphemes_of(r@) == substr_clusters(graphemes_of(s@), start as int, length as int),
        graphemes_of(r@).len() <= length,
{
    let gs: Vec<String> = grapheme_clusters(s);
    proof {
        let gv = gs.deep_view();
        assert(gv.subrange(0, 0) =~= Seq::<Seq<char>>::empty());
        assert(concat_all(gv.subrange(0, 0)) =~= Seq::<char>::empty());
        assert(graphemes_of(Seq::<char>::empty()) =~= Seq::<Seq<char>>::empty());
    }
    if length == 0 || start >= gs.len() {
        proof {
            assert(substr_spec(graphemes_of(s@), start as int, length as int) =~= Seq::<
                char,
            >::empty());
            assert(substr_clusters(graphemes_of(s@), start as int, length as int) =~= Seq::<
                Seq<char>,
            >::empty());
        }
        return String::new();
    }
    let end: usize = if gs.len() - start < length {
        gs.len()
    } else {
        start + length
    };
    let mut r = String::new();
    let mut i: usize = start;
    proof {
        assert(r@ =~= concat_all(gs.deep_view().subrange(start as int, start as int)));
    }
    while i < end
        invariant
            start <= i <= end,
            end <= gs.len(),
            gs.deep_view() == graphemes_of(s@),
            gs.deep_view().len() == gs@.len(),
            r@ == concat_all(gs.deep_view().subrange(start as int, i as int)),
        decreases end - i,
    {
        proof {
            assert(gs.deep_view()[i as int] == gs@[i as int]@);
            assert(gs.deep_view().subrange(start as int, i + 1) =~= gs.deep_view().subrange(
                start as int,
                i as int,
            ).push(gs.deep_view()[i as int]));
            lemma_concat_all_push(
                gs.deep_view().subrange(start as int, i as int),
                gs.deep_view()[i as int],
            );
        }
        r.append(gs[i].as_str());
        i = i + 1;
    }
    proof {
        let gv = gs.deep_view();
        assert(graphemes_of(concat_all(gv.subrange(start as int, end as int))) == gv.subrange(
            start as int,
            end as int,
        ));
        assert(gv.subrange(start as int, end as int) =~= substr_clusters(
            graphemes_of(s@),
            start as int,
            length as int,
        ));
    }
    r
}

/// Counts the total number of grapheme clusters in the string.
pub fn grapheme_len(s: &str) -> (r: usize)
    ensures
        r == graphemes_of(s@).len(),
{
    let gs: Vec<String> = grapheme_clusters(s);
    proof {
        assert(gs.deep_view().len() == gs@.len());
    }
    gs.len()
}

/// Some helper functions for dealing with Unicode strings.
pub trait StringUtils {
    /// Creates a string from `start` and taking `length`, counted by
    /// grapheme clusters.
    fn substr(&self, start: usize, length: usize) -> String;

    /// Counts the total number of Unicode graphemes in the string.
    fn grapheme_len(&self) -> usize;
}

impl StringUtils for String {
    fn substr(&self, start: usize, length: usize) -> (r: String)
        ensures
            r@ == substr_spec(graphemes_of(self@), start as int, length as int),
            graphemes_of(r@) == substr_clusters(graphemes_of(self@), start as int, length as int),
            graphemes_of(r@).len() <= length,
    {
        substr(self.as_str(), start, length)
    }

    fn grapheme_len(&self) -> (r: usize)
        ensures
            r == graphemes_of(self@).len(),
    {
        grapheme_len(self.as_str())
    }
}

/// The pinyin romanization of a Chinese character, in its plain form
/// (no tone marks), when the character has one.
pub uninterp spec fn pinyin_of(c: char) -> Option<Seq<char>>;

/// Relies on `pinyin::ToPinyin` for `char` and `Pinyin::plain`: the plain
/// romanization depends on the character alone, and characters outside
/// the supported range have none.
#[verifier::external_body]
fn char_pinyin(c: char) -> (r: Option<String>)
    ensures
        (match r {
            Some(p) => pinyin_of(c) == Some(p@),
            None => pinyin_of(c) is None,
        }),
{
    c.to_pinyin().map(|p| p.plain().to_owned())
}

/// The uppercase conversion of a string.
pub uninterp spec fn upper_of(s: Seq<char>) -> Seq<char>;

/// Relies on `str::to_uppercase`: the Unicode uppercase conversion
/// depends on the characters alone.
#[verifier::external_body]
fn str_to_uppercase(s: &str) -> (r: String)
    ensures
        r@ == upper_of(s@),
{
    s.to_uppercase()
}

/// The piece position `i` contributes to a romanization: the character's
/// pinyin when it has one, else the matching character of the uppercased
/// string, when the uppercased string is long enough.
pub open spec fn pin_yin_piece(s: Seq<char>, up: Seq<char>, i: int) -> Seq<char> {
    match pinyin_of(s[i]) {
        Some(p) => p,
        None => if 0 <= i < up.len() {
            seq![up[i]]
        } else {
            Seq::empty()
        },
    }
}

pub open spec fn pin_yin_spec(s: Seq<char>, up: Seq<char>) -> Seq<char> {
    concat_all(Seq::new(s.len(), |i: int| pin_yin_piece(s, up, i)))
}

/// Romanize a name for sorting: each character that has a pinyin reading
/// contributes it in plain form; any other character contributes its
/// uppercase counterpart.
pub fn get_pin_yin(input: &str) -> (r: String)
    ensures
        r@ == pin_yin_spec(input@, upper_of(input@)),
{
    let upper: String = str_to_uppercase(input);
    let n: usize = input.unicode_len();
    let un: usize = upper.as_str().unicode_len();
    let mut b = String::new();
    let mut i: usize = 0;
    proof {
        assert(b@ =~= concat_all(
            Seq::new(0, |j: int| pin_yin_piece(input@, upper_of(input@), j)),
        ));
    }
    while i < n
        invariant
            i <= n,
            n == input@.len(),
            un == upper_of(input@).len(),
            upper@ == upper_of(input@),
            b@ == concat_all(Seq::new(i as nat, |j: int| pin_yin_piece(input@, upper_of(input@), j))),
        decreases n - i,
    {
        let ghost pieces_i = Seq::new(i as nat, |j: int| pin_yin_piece(input@, upper_of(input@), j));
        let ghost pieces_i1 = Seq::new(
            (i + 1) as nat,
            |j: int| pin_yin_piece(input@, upper_of(input@), j),
        );
        proof {
            assert(pieces_i1 =~= pieces_i.push(pin_yin_piece(input@, upper_of(input@), i as int)));
            lemma_concat_all_push(pieces_i, pin_yin_piece(input@, upper_of(input@), i as int));
        }
        let c: char = input.get_char(i);
        match char_pinyin(c) {
            Some(p) => {
                b.append(p.as_str());
            },
            None => {
                if i < un {
                    let piece: &str = upper.as_str().substring_char(i, i + 1);
                    proof {
                        assert(piece@ =~= seq![upper_of(input@)[i as int]]);
                    }
                    b.append(piece);
                } else {
                    proof {
                        assert(pin_yin_piece(input@, upper_of(input@), i as int) =~= Seq::<
                            char,
                        >::empty());
                        assert(b@ + Seq::<char>::empty() =~= b@);
                    }
                }
            },
        }
        i = i + 1;
    }
    proof {
        assert(Seq::new(n as nat, |j: int| pin_yin_piece(input@, upper_of(input@), j)) =~= Seq::new(
            input@.len(),
            |j: int| pin_yin_piece(input@, upper_of(input@), j),
        ));
    }
    b
}

/// Relies on `rand::random_range`: the drawn value lies below the bound;
/// nothing else is assumed of it, and two calls may differ.
#[verifier::external_body]
pub(crate) fn random_below(n: usize) -> (r: usize)
    requires
        n > 0,
    ensures
        r < n,
{
    rand::rng().random_range(0..n)
}

pub open spec fn is_lower_alnum(c: char) -> bool {
    ('a' <= c && c <= 'z') || ('0' <= c && c <= '9')
}

/// Generate `len` random ascii characters (a-z0-9).
pub fn random_ascii(len: usize) -> (r: String)
    ensures
        r@.len() == len,
        forall|i: int| 0 <= i < r@.len() ==> is_lower_alnum(#[trigger] r@[i]),
{
    let alphabet: &str = "abcdefghijklmnopqrstuvwxyz0123456789";
    proof {
        reveal_strlit("abcdefghijklmnopqrstuvwxyz0123456789");
    }
    let mut r = String::new();
    let mut i: usize = 0;
    proof {
        assert(r@ =~= Seq::<char>::empty());
    }
    while i < len
        invariant
            i <= len,
            alphabet@.len() == 36,
            forall|k: int| 0 <= k < 36 ==> is_lower_alnum(#[trigger] alphabet@[k]),
            r@.len() == i,
            forall|j: int| 0 <= j < r@.len() ==> is_lower_alnum(#[trigger] r@[j]),
        decreases len - i,
    {
        let k: usize = random_below(36);
        let piece: &str = alphabet.substring_char(k, k + 1);
        r.append(piece);
        i = i + 1;
    }
    r
}

pub open spec fn is_dec_digit(c: char) -> bool {
    '0' <= c && c <= '9'
}

pub open spec fn digit_val(c: char) -> int {
    (c as u32) - ('0' as u32)
}

pub open spec fn all_dec_digits(s: Seq<char>) -> bool {
    forall|i: int| 0 <= i < s.len() ==> is_dec_digit(#[trigger] s[i])
}

/// The value of a digit string read in base ten.
pub open spec fn digits_value(s: Seq<char>) -> int
    decreases s.len(),
{
    if s.len() == 0 {
        0
    } else {
        digits_value(s.drop_last()) * 10 + digit_val(s.last())
    }
}

pub proof fn lemma_digits_value_nonneg(s: Seq<char>)
    requires
        all_dec_digits(s),
    ensures
        digits_value(s) >= 0,
    decreases s.len(),
{
    if s.len() > 0 {
        assert(all_dec_digits(s.drop_last()));
        lemma_digits_value_nonneg(s.drop_last());
    }
}

/// The value of a digit string only grows as digits are appended.
pub proof fn lemma_digits_prefix_le(s: Seq<char>, i: int)
    requires
        all_dec_digits(s),
        0 <= i <= s.len(),
    ensures
        digits_value(s.take(i)) <= digits_value(s),
    decreases s.len() - i,
{
    if i < s.len() {
        assert(s.take(i + 1).drop_last() =~= s.take(i));
        assert(s.take(i + 1).last() == s[i]);
        assert(all_dec_digits(s.take(i)));
        lemma_digits_value_nonneg(s.take(i));
        assert(digits_value(s.take(i + 1)) == digits_value(s.take(i)) * 10 + digit_val(s[i]));
        assert(digits_value(s.take(i)) * 10 >= digits_value(s.take(i))) by (nonlinear_arith)
            requires
                digits_value(s.take(i)) >= 0,
        ;
        lemma_digits_prefix_le(s, i + 1);
        assert(s.take(s.len() as int) =~= s);
    } else {
        assert(s.take(s.len() as int) =~= s);
    }
}

/// What parsing an unsigned decimal yields: the digits' value when the
/// string is one or more digits after an optional leading plus sign and
/// the value fits the machine word; nothing otherwise.
pub open spec fn parse_usize_spec(s: Seq<char>) -> Option<int> {
    let t = if s.len() > 0 && s[0] == '+' {
        s.drop_first()
    } else {
        s
    };
    if t.len() > 0 && all_dec_digits(t) && digits_value(t) <= usize::MAX {
        Some(digits_value(t))
    } else {
        None
    }
}

/// Parse an unsigned decimal number, rejecting anything that is not one,
/// and anything too large for the machine word.
pub fn parse_usize(s: &str) -> (r: Option<usize>)
    ensures
        (match r {
            Some(v) => parse_usize_spec(s@) == Some(v as int),
            None => parse_usize_spec(s@) is None,
        }),
{
    let n: usize = s.unicode_len();
    let start: usize = if n > 0 && s.get_char(0) == '+' {
        1
    } else {
        0
    };
    let ghost t: Seq<char> = if s@.len() > 0 && s@[0] == '+' {
        s@.drop_first()
    } else {
        s@
    };
    proof {
        assert(t =~= s@.subrange(start as int, n as int));
    }
    if start >= n {
        return None;
    }
    let mut acc: usize = 0;
    let mut i: usize = start;
    proof {
        assert(t.take(0) =~= Seq::<char>::empty());
    }
    while i < n
        invariant
            start <= i <= n,
            n == s@.len(),
            start == (if s@.len() > 0 && s@[0] == '+' {
                1int
            } else {
                0int
            }),
            t == (if s@.len() > 0 && s@[0] == '+' {
                s@.drop_first()
            } else {
                s@
            }),
            t == s@.subrange(start as int, n as int),
            t.len() == n - start,
            all_dec_digits(t.take(i - start)),
            acc == digits_value(t.take(i - start)),
        decreases n - i,
    {
        let c: char = s.get_char(i);
        proof {
            assert(t[i - start] == s@[i as int]);
        }
        if c < '0' || c > '9' {
            proof {
                assert(!is_dec_digit(t[i - start]));
                assert(!all_dec_digits(t));
            }
            return None;
        }
        let d: usize = ((c as u32) - ('0' as u32)) as usize;
        proof {
            assert(t.take(i - start + 1).drop_last() =~= t.take(i - start));
            assert(t.take(i - start + 1).last() == t[i - start]);
        }
        if acc > (usize::MAX - d) / 10 {
            proof {
                let v1 = digits_value(t.take(i - start + 1));
                assert(v1 == acc * 10 + d);
                assert(acc * 10 + d > usize::MAX) by (nonlinear_arith)
                    requires
                        acc > (usize::MAX - d) / 10,
                        0 <= d <= 9,
                ;
                if all_dec_digits(t) {
                    lemma_digits_prefix_le(t, i - start + 1);
                    assert(digits_value(t) > usize::MAX);
                }
            }
            return None;
        }
        proof {
            assert(acc * 10 + d <= usize::MAX) by (nonlinear_arith)
                requires
                    acc <= (usize::MAX - d) / 10,
                    0 <= d <= 9,
                    acc >= 0,
            ;
        }
        acc = acc * 10 + d;
        i = i + 1;
    }
    proof {
        assert(t.take(n - start) =~= t);
    }
    Some(acc)
}


/// Powers of ten.
pub open spec fn pow10(k: nat) -> int
    decreases k,
{
    if k == 0 {
        1
    } else {
        10 * pow10((k - 1) as nat)
    }
}

pub proof fn lemma_digits_value_prepend(c: char, r: Seq<char>)
    ensures
        digits_value(seq![c] + r) == digit_val(c) * pow10(r.len()) + digits_value(r),
    decreases r.len(),
{
    if r.len() == 0 {
        assert(seq![c] + r =~= seq![c]);
        assert(seq![c].drop_last() =~= Seq::<char>::empty());
        assert(digits_value(Seq::<char>::empty()) == 0);
        assert(seq![c].last() == c);
        assert(digits_value(seq![c]) == digit_val(c));
    } else {
        let s = seq![c] + r;
        assert(s.len() == r.len() + 1);
        assert(s.drop_last() =~= seq![c] + r.drop_last());
        assert(s.last() == r.last());
        assert(digits_value(s) == digits_value(seq![c] + r.drop_last()) * 10 + digit_val(r.last()));
        lemma_digits_value_prepend(c, r.drop_last());
        assert(digits_value(s) == (digit_val(c) * pow10(r.drop_last().len()) + digits_value(
            r.drop_last(),
        )) * 10 + digit_val(r.last()));
        assert((digit_val(c) * pow10(r.drop_last().len()) + digits_value(r.drop_last())) * 10
            == digit_val(c) * (10 * pow10(r.drop_last().len())) + digits_value(r.drop_last()) * 10)
            by (nonlinear_arith);
        assert(pow10(r.len()) == 10 * pow10(r.drop_last().len()));
        assert(digits_value(s) == digit_val(c) * pow10(r.len()) + (digits_value(r.drop_last()) * 10
            + digit_val(r.last())));
        assert(digits_value(r) == digits_value(r.drop_last()) * 10 + digit_val(r.last()));
    }
}

/// Print an unsigned number in decimal: one or more digits, no leading
/// zero unless the number is zero.
pub fn usize_to_string(n: usize) -> (r: String)
    ensures
        all_dec_digits(r@),
        digits_value(r@) == n,
        r@.len() > 0,
        r@.len() > 1 ==> r@[0] != '0',
{
    let digits: &str = "0123456789";
    proof {
        reveal_strlit("0123456789");
    }
    if n == 0 {
        let z = String::from_str("0");
        proof {
            reveal_strlit("0");
            assert(z@ =~= seq!['0']);
            assert(z@.drop_last() =~= Seq::<char>::empty());
            assert(digits_value(Seq::<char>::empty()) == 0);
            assert(z@.last() == '0');
            assert(digits_value(z@) == digit_val('0'));
        }
        return z;
    }
    let mut r = String::new();
    let mut m: usize = n;
    proof {
        assert(r@ =~= Seq::<char>::empty());
        assert(pow10(0) == 1);
    }
    while m > 0
        invariant
            digits@.len() == 10,
            forall|k: int|
                0 <= k < 10 ==> is_dec_digit(#[trigger] digits@[k]) && digit_val(digits@[k]) == k,
            all_dec_digits(r@),
            m * pow10(r@.len()) + digits_value(r@) == n,
            m == 0 ==> r@.len() > 0,
            r@.len() > 0 ==> is_dec_digit(r@[0]),
            r@.len() > 0 && m == 0 ==> r@[0] != '0',
            m > 0 || r@.len() > 0,
        decreases m,
    {
        let ghost m0: int = m as int;
        let ghost r0: Seq<char> = r@;
        let d: usize = m % 10;
        let ds: &str = digits.substring_char(d, d + 1);
        proof {
            assert(ds@ =~= seq![digits@[d as int]]);
        }
        let newr = String::from_str(ds).concat(r.as_str());
        proof {
            assert(newr@ =~= seq![digits@[d as int]] + r0);
            lemma_digits_value_prepend(digits@[d as int], r0);
            assert(digits_value(newr@) == d * pow10(r0.len()) + digits_value(r0));
            assert(forall|j: int|
                0 <= j < newr@.len() ==> is_dec_digit(#[trigger] newr@[j]));
        }
        r = newr;
        m = m / 10;
        proof {
            assert(m0 == 10 * (m as int) + (d as int));
            assert(pow10(r@.len()) == 10 * pow10(r0.len()));
            assert((10 * (m as int) + (d as int)) * pow10(r0.len()) == (m as int) * (10 * pow10(
                r0.len(),
            )) + (d as int) * pow10(r0.len())) by (nonlinear_arith);
            assert(m * pow10(r@.len()) + digits_value(r@) == n);
            if m == 0 {
                assert(d as int == m0);
                assert(d > 0);
                assert(digit_val(r@[0]) == d as int);
                assert(digit_val('0') == 0);
                assert(r@[0] != '0');
            }
        }
    }
    r
}

} // verus!

verus! {

/// ASCII whitespace, as line trimming for the playlist log understands
/// it.
pub open spec fn is_ascii_ws(c: char) -> bool {
    c == ' ' || c == '\t' || c == '\n' || c == '\r'
}

/// `s` with leading whitespace removed.
pub open spec fn trim_front_spec(s: Seq<char>) -> Seq<char>
    decreases s.len(),
{
    if s.len() > 0 && is_ascii_ws(s[0]) {
        trim_front_spec(s.drop_first())
    } else {
        s
    }
}

/// `s` with trailing whitespace removed.
pub open spec fn trim_back_spec(s: Seq<char>) -> Seq<char>
    decreases s.len(),
{
    if s.len() > 0 && is_ascii_ws(s.last()) {
        trim_back_spec(s.drop_last())
    } else {
        s
    }
}

/// `s` with whitespace removed from both ends.
pub open spec fn trim_spec(s: Seq<char>) -> Seq<char> {
    trim_back_spec(trim_front_spec(s))
}

proof fn lemma_trim_front_take(s: Seq<char>, a: int)
    requires
        0 <= a <= s.len(),
        forall|j: int| 0 <= j < a ==> is_ascii_ws(s[j]),
        a < s.len() ==> !is_ascii_ws(s[a]),
    ensures
        trim_front_spec(s) == s.skip(a),
    decreases a,
{
    if a == 0 {
        assert(s.skip(0) =~= s);
    } else {
        assert(is_ascii_ws(s[0]));
        lemma_trim_front_take(s.drop_first(), a - 1);
        assert(s.drop_first().skip(a - 1) =~= s.skip(a));
    }
}

proof fn lemma_trim_back_take(s: Seq<char>, b: int)
    requires
        0 <= b <= s.len(),
        forall|j: int| b <= j < s.len() ==> is_ascii_ws(s[j]),
        b > 0 ==> !is_ascii_ws(s[b - 1]),
    ensures
        trim_back_spec(s) == s.take(b),
    decreases s.len() - b,
{
    if b == s.len() {
        assert(s.take(b) =~= s);
    } else {
        assert(is_ascii_ws(s.last()));
        lemma_trim_back_take(s.drop_last(), b);
        assert(s.drop_last().take(b) =~= s.take(b));
    }
}

/// Remove ASCII whitespace from both ends of a string.
pub fn trim(s: &str) -> (r: String)
    ensures
        r@ == trim_spec(s@),
{
    let n: usize = s.unicode_len();
    let mut a: usize = 0;
    while a < n
        invariant
            a <= n,
            n == s@.len(),
            forall|j: int| 0 <= j < a ==> is_ascii_ws(s@[j]),
        ensures
            a <= n,
            forall|j: int| 0 <= j < a ==> is_ascii_ws(s@[j]),
            a < n ==> !is_ascii_ws(s@[a as int]),
        decreases n - a,
    {
        let c: char = s.get_char(a);
        if !(c == ' ' || c == '\t' || c == '\n' || c == '\r') {
            break ;
        }
        a = a + 1;
    }
    let mut b: usize = n;
    while b > a
        invariant
            a <= b <= n,
            n == s@.len(),
            forall|j: int| b <= j < n ==> is_ascii_ws(s@[j]),
        ensures
            a <= b <= n,
            forall|j: int| b <= j < n ==> is_ascii_ws(s@[j]),
            b > a ==> !is_ascii_ws(s@[b - 1]),
        decreases b,
    {
        let c: char = s.get_char(b - 1);
        if !(c == ' ' || c == '\t' || c == '\n' || c == '\r') {
            break ;
        }
        b = b - 1;
    }
    let piece: &str = s.substring_char(a, b);
    proof {
        lemma_trim_front_take(s@, a as int);
        let t = s@.skip(a as int);
        if b > a {
            assert(!is_ascii_ws(s@[b - 1]));
        }
        lemma_trim_back_take(t, b - a);
        assert(t.take(b - a) =~= s@.subrange(a as int, b as int));
        assert(piece@ =~= s@.subrange(a as int, b as int));
    }
    String::from_str(piece)
}

} // verus!

verus! {

/// The canonical decimal digit string of a nonnegative number.
pub open spec fn decimal_of(n: int) -> Seq<char>
    decreases n,
{
    if n <= 0 {
        seq!['0']
    } else if n < 10 {
        seq![digit_char(n)]
    } else {
        decimal_of(n / 10).push(digit_char(n % 10))
    }
}

/// The digit character of a value below ten.
pub open spec fn digit_char(d: int) -> char {
    if d == 0 {
        '0'
    } else if d == 1 {
        '1'
    } else if d == 2 {
        '2'
    } else if d == 3 {
        '3'
    } else if d == 4 {
        '4'
    } else if d == 5 {
        '5'
    } else if d == 6 {
        '6'
    } else if d == 7 {
        '7'
    } else if d == 8 {
        '8'
    } else {
        '9'
    }
}

/// A digit string without leading zeros that reads as `n` is exactly the
/// canonical decimal form of `n`.
pub proof fn lemma_decimal_of_digits(n: int, s: Seq<char>)
    requires
        n >= 0,
        all_dec_digits(s),
        digits_value(s) == n,
        s.len() > 0,
        s.len() > 1 ==> s[0] != '0',
    ensures
        s == decimal_of(n),
    decreases s.len(),
{
    if s.len() == 1 {
        assert(digits_value(s.drop_last()) == 0) by {
            assert(s.drop_last() =~= Seq::<char>::empty());
        }
        assert(n == digit_val(s.last()));
        assert(s =~= seq![s[0]]);
        assert(s.last() == s[0]);
        assert(digit_char(digit_val(s[0])) == s[0]);
    } else {
        let front = s.drop_last();
        assert(all_dec_digits(front));
        lemma_digits_value_nonneg(front);
        assert(n == digits_value(front) * 10 + digit_val(s.last()));
        assert(front[0] == s[0]);
        assert(front.len() > 0);
        if front.len() == 1 {
            assert(front[0] != '0');
            assert(digits_value(front) == digit_val(front.last())) by {
                assert(front.drop_last() =~= Seq::<char>::empty());
                assert(digits_value(Seq::<char>::empty()) == 0);
            }
            assert(front.last() == front[0]);
            assert(digit_val(front[0]) >= 1);
        } else {
            assert(front[0] != '0');
            lemma_digits_front_positive(front);
        }
        assert(digits_value(front) >= 1);
        assert(n >= 10) by (nonlinear_arith)
            requires
                n == digits_value(front) * 10 + digit_val(s.last()),
                digits_value(front) >= 1,
                digit_val(s.last()) >= 0,
        ;
        assert(n / 10 == digits_value(front) && n % 10 == digit_val(s.last()))
            by (nonlinear_arith)
            requires
                n == digits_value(front) * 10 + digit_val(s.last()),
                0 <= digit_val(s.last()) < 10,
                digits_value(front) >= 0,
        ;
        lemma_decimal_of_digits(n / 10, front);
        assert(digit_char(digit_val(s.last())) == s.last());
        assert(s =~= front.push(s.last()));
    }
}

/// A digit string of several digits without a leading zero has a value
/// of at least its length's power of ten — in particular positive.
proof fn lemma_digits_front_positive(s: Seq<char>)
    requires
        all_dec_digits(s),
        s.len() > 0,
        s[0] != '0',
    ensures
        digits_value(s) >= 1,
    decreases s.len(),
{
    if s.len() == 1 {
        assert(digits_value(s.drop_last()) == 0) by {
            assert(s.drop_last() =~= Seq::<char>::empty());
        }
        assert(s.last() == s[0]);
        assert(digit_val(s[0]) >= 1);
    } else {
        let front = s.drop_last();
        assert(front[0] == s[0]);
        assert(all_dec_digits(front));
        lemma_digits_front_positive(front);
        assert(digits_value(front) * 10 >= 10) by (nonlinear_arith)
            requires
                digits_value(front) >= 1,
        ;
    }
}

} // verus!
