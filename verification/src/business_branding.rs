//! The branding of a business: its logo and its slogan.

use crate::codec::{base64_bytes, base64_decode, utf8_text};
use crate::text::{
    begins, cat, char_count, is_empty, opt_view, remove_char, same, starts_with, to_chars, trim, trim_start, trimmed,
    views, without,
};
use vstd::prelude::*;
use vstd::utf8::{decode_utf8, valid_utf8};

verus! {

/// The most bytes of a logo.
pub const MAX_LOGO_BYTES: usize = 2_097_152;

/// The fewest bytes of a logo.
pub const MIN_LOGO_BYTES: usize = 8;

/// The most characters of a slogan.
pub const MAX_SLOGAN_CHARS: usize = 200;

/// How far into a file the start of an SVG image is looked for.
pub const SVG_HEAD: usize = 200;

/// The kind of an image.
#[derive(Clone, Copy, PartialEq, Eq, Structural, Debug)]
pub enum LogoKind {
    Png,
    Jpg,
    Svg,
}

/// Why branding is refused.
#[derive(Clone, Copy, PartialEq, Eq, Structural, Debug)]
pub enum BrandingError {
    EmptyLogo,
    NotBase64,
    LogoTooLarge,
    LogoTooSmall,
    UnknownImage,
    SloganTooLong,
}

/// The sentence for refused branding.
pub fn branding_error_text(e: BrandingError) -> (s: &'static str)
    ensures
        s@ == match e {
            BrandingError::EmptyLogo => "logo base64 is empty"@,
            BrandingError::NotBase64 => "invalid base64 image data"@,
            BrandingError::LogoTooLarge => "logo must be under 2MB"@,
            BrandingError::LogoTooSmall => "logo file too small to be valid"@,
            BrandingError::UnknownImage => "logo must be PNG, JPG, or SVG"@,
            BrandingError::SloganTooLong => "slogan must be under 200 characters"@,
        },
{
    match e {
        BrandingError::EmptyLogo => "logo base64 is empty",
        BrandingError::NotBase64 => "invalid base64 image data",
        BrandingError::LogoTooLarge => "logo must be under 2MB",
        BrandingError::LogoTooSmall => "logo file too small to be valid",
        BrandingError::UnknownImage => "logo must be PNG, JPG, or SVG",
        BrandingError::SloganTooLong => "slogan must be under 200 characters",
    }
}

// ---------------------------------------------------------------------------
// The logo
// ---------------------------------------------------------------------------

/// The bytes that a PNG image begins with.
pub open spec fn png_head() -> Seq<u8> {
    seq![0x89u8, 0x50, 0x4E, 0x47, 0x0D, 0x0A, 0x1A, 0x0A]
}

/// The bytes that a JPEG image begins with.
pub open spec fn jpg_head() -> Seq<u8> {
    seq![0xFFu8, 0xD8, 0xFF]
}

/// The bytes in which the start of an SVG image is looked for.
pub open spec fn head_of(bytes: Seq<u8>) -> Seq<u8> {
    bytes.take(
        if bytes.len() < SVG_HEAD {
            bytes.len() as int
        } else {
            SVG_HEAD as int
        },
    )
}

/// The kind of an image, by how it begins.
pub open spec fn kind_of(bytes: Seq<u8>) -> Option<LogoKind> {
    if bytes.len() >= 8 && bytes.take(8) == png_head() {
        Some(LogoKind::Png)
    } else if bytes.len() >= 3 && bytes.take(3) == jpg_head() {
        Some(LogoKind::Jpg)
    } else if valid_utf8(head_of(bytes)) && begins(trim_start(decode_utf8(head_of(bytes))), "<svg"@) {
        Some(LogoKind::Svg)
    } else {
        None
    }
}

/// Why the bytes are no logo, where they are none.
pub open spec fn image_problem(bytes: Seq<u8>) -> Option<BrandingError> {
    if bytes.len() > MAX_LOGO_BYTES {
        Some(BrandingError::LogoTooLarge)
    } else if bytes.len() < MIN_LOGO_BYTES {
        Some(BrandingError::LogoTooSmall)
    } else if kind_of(bytes) is None {
        Some(BrandingError::UnknownImage)
    } else {
        None
    }
}

fn head_bytes(bytes: &Vec<u8>) -> (head: Vec<u8>)
    ensures
        head@ == head_of(bytes@),
{
    let n: usize = if bytes.len() < SVG_HEAD {
        bytes.len()
    } else {
        SVG_HEAD
    };
    let mut head: Vec<u8> = Vec::new();
    let mut i: usize = 0;
    while i < n
        invariant
            i <= n <= bytes@.len(),
            head@ == bytes@.take(i as int),
        decreases n - i,
    {
        head.push(bytes[i]);
        i = i + 1;
    }
    head
}

fn trimmed_start(s: &str) -> (r: String)
    ensures
        r@ == trim_start(s@),
{
    let v = to_chars(s);
    let mut i: usize = 0;
    assert(v@.skip(0) =~= v@);
    while i < v.len() && crate::text::char_is_white(v[i])
        invariant
            v@ == s@,
            i <= v@.len(),
            trim_start(v@.skip(i as int)) == trim_start(s@),
        decreases v@.len() - i,
    {
        assert(v@.skip(i as int)[0] == v@[i as int]);
        assert(v@.skip(i as int).drop_first() =~= v@.skip(i + 1));
        i = i + 1;
    }
    proof {
        if i < v@.len() {
            assert(v@.skip(i as int)[0] == v@[i as int]);
        }
    }
    let r = crate::text::slice_text(&v, i, v.len());
    assert(r@ =~= v@.skip(i as int));
    r
}

/// The kind of an image, by how it begins.
pub fn logo_kind(bytes: &Vec<u8>) -> (r: Option<LogoKind>)
    ensures
        r == kind_of(bytes@),
{
    if bytes.len() >= 8 && bytes[0] == 0x89 && bytes[1] == 0x50 && bytes[2] == 0x4E && bytes[3] == 0x47 && bytes[4]
        == 0x0D && bytes[5] == 0x0A && bytes[6] == 0x1A && bytes[7] == 0x0A {
        assert(bytes@.take(8) =~= png_head());
        return Some(LogoKind::Png);
    }
    proof {
        if bytes@.len() >= 8 && bytes@.take(8) == png_head() {
            let t = bytes@.take(8);
            assert(t[0] == bytes@[0] && t[1] == bytes@[1] && t[2] == bytes@[2] && t[3] == bytes@[3] && t[4]
                == bytes@[4] && t[5] == bytes@[5] && t[6] == bytes@[6] && t[7] == bytes@[7]);
        }
    }
    if bytes.len() >= 3 && bytes[0] == 0xFF && bytes[1] == 0xD8 && bytes[2] == 0xFF {
        assert(bytes@.take(3) =~= jpg_head());
        return Some(LogoKind::Jpg);
    }
    proof {
        if bytes@.len() >= 3 && bytes@.take(3) == jpg_head() {
            let t = bytes@.take(3);
            assert(t[0] == bytes@[0] && t[1] == bytes@[1] && t[2] == bytes@[2]);
        }
    }
    match utf8_text(&head_bytes(bytes)) {
        Some(text) => if starts_with(trimmed_start(text.as_str()).as_str(), "<svg") {
            Some(LogoKind::Svg)
        } else {
            None
        },
        None => None,
    }
}

/// Checks the bytes of a logo and gives its kind.
pub fn check_logo(bytes: &Vec<u8>) -> (r: Result<LogoKind, BrandingError>)
    ensures
        match r {
            Ok(k) => image_problem(bytes@) is None && kind_of(bytes@) == Some(k),
            Err(e) => image_problem(bytes@) == Some(e),
        },
{
    if bytes.len() > MAX_LOGO_BYTES {
        return Err(BrandingError::LogoTooLarge);
    }
    if bytes.len() < MIN_LOGO_BYTES {
        return Err(BrandingError::LogoTooSmall);
    }
    match logo_kind(bytes) {
        Some(k) => Ok(k),
        None => Err(BrandingError::UnknownImage),
    }
}

/// The ending of a logo's file name.
pub open spec fn ending_of(k: LogoKind) -> Seq<char> {
    match k {
        LogoKind::Png => "png"@,
        LogoKind::Jpg => "jpg"@,
        LogoKind::Svg => "svg"@,
    }
}

/// The name of a logo's file: made of the business's id alone, never of
/// anything that was sent.
pub open spec fn file_name_of(business_id: Seq<char>, k: LogoKind) -> Seq<char> {
    "logo_"@ + without(business_id, '-') + "."@ + ending_of(k)
}

/// The name of a logo's file.
pub fn logo_file_name(business_id: &str, k: LogoKind) -> (s: String)
    ensures
        s@ == file_name_of(business_id@, k),
{
    let mut s = "logo_".to_owned();
    s.append(remove_char(business_id, '-').as_str());
    s.append(".");
    match k {
        LogoKind::Png => {
            s.append("png");
        },
        LogoKind::Jpg => {
            s.append("jpg");
        },
        LogoKind::Svg => {
            s.append("svg");
        },
    }
    s
}

/// Whether a path lies in a directory, both given by their parts.
pub open spec fn lies_in(path: Seq<Seq<char>>, dir: Seq<Seq<char>>) -> bool {
    dir.is_prefix_of(path)
}

/// Serves an uploaded file only where it lies among the uploads: gives its media
/// type, by its ending. The paths are those that the file system resolved.
pub fn serve_logo(path: &Vec<String>, uploads: &Vec<String>, ending: &Option<String>) -> (r: Option<&'static str>)
    ensures
        match r {
            Some(kind) => lies_in(views(path@), views(uploads@)) && kind@ == media_type(opt_view(*ending)),
            None => !lies_in(views(path@), views(uploads@)),
        },
{
    if path.len() < uploads.len() {
        return None;
    }
    let mut i: usize = 0;
    while i < uploads.len()
        invariant
            i <= uploads@.len() <= path@.len(),
            forall|k: int| 0 <= k < i ==> views(path@)[k] == #[trigger] views(uploads@)[k],
        decreases uploads@.len() - i,
    {
        if !same(path[i].as_str(), uploads[i].as_str()) {
            assert(views(path@)[i as int] != views(uploads@)[i as int]);
            return None;
        }
        i = i + 1;
    }
    assert(views(uploads@) =~= views(path@).take(uploads@.len() as int));
    Some(mime_type(ending))
}

/// A file outside the uploads is never served, whatever its name.
pub proof fn law_only_uploads_are_served(path: Seq<Seq<char>>, dir: Seq<Seq<char>>, i: int)
    requires
        0 <= i < dir.len(),
        i >= path.len() || path[i] != dir[i],
    ensures
        !lies_in(path, dir),
{
}

/// The media type of a file with that ending.
pub open spec fn media_type(ending: Option<Seq<char>>) -> Seq<char> {
    match ending {
        Some(e) => if e == "png"@ {
            "image/png"@
        } else if e == "jpg"@ || e == "jpeg"@ {
            "image/jpeg"@
        } else if e == "svg"@ {
            "image/svg+xml"@
        } else {
            "application/octet-stream"@
        },
        None => "application/octet-stream"@,
    }
}

/// The media type of a file with that ending.
pub fn mime_type(ending: &Option<String>) -> (s: &'static str)
    ensures
        s@ == media_type(opt_view(*ending)),
{
    match ending {
        Some(e) => if same(e.as_str(), "png") {
            "image/png"
        } else if same(e.as_str(), "jpg") || same(e.as_str(), "jpeg") {
            "image/jpeg"
        } else if same(e.as_str(), "svg") {
            "image/svg+xml"
        } else {
            "application/octet-stream"
        },
        None => "application/octet-stream",
    }
}

/// A logo that is to be stored.
#[derive(Debug)]
pub struct NewLogo {
    pub file_name: String,
    pub bytes: Vec<u8>,
}

/// Changes of branding: those parts that were given.
#[derive(Debug)]
pub struct BrandingUpdate {
    pub logo: Option<NewLogo>,
    pub slogan: Option<String>,
}

/// Why a logo that was sent is refused, where it is. `decoded` are the bytes
/// that its text stands for.
pub open spec fn logo_refusal(logo: Seq<char>, decoded: Option<Seq<u8>>) -> Option<BrandingError> {
    if trimmed(logo).len() == 0 {
        Some(BrandingError::EmptyLogo)
    } else {
        match decoded {
            None => Some(BrandingError::NotBase64),
            Some(b) => image_problem(b),
        }
    }
}

/// Why a slogan is refused, where it is.
pub open spec fn slogan_refusal(slogan: Seq<char>) -> Option<BrandingError> {
    if trimmed(slogan).len() > MAX_SLOGAN_CHARS {
        Some(BrandingError::SloganTooLong)
    } else {
        None
    }
}

/// Checks a slogan; white space around it does not count.
pub fn check_slogan(slogan: &str) -> (r: Result<String, BrandingError>)
    ensures
        match r {
            Ok(s) => slogan_refusal(slogan@) is None && s@ == trimmed(slogan@),
            Err(e) => slogan_refusal(slogan@) == Some(e),
        },
{
    let s = trim(slogan);
    if char_count(s.as_str()) > MAX_SLOGAN_CHARS {
        Err(BrandingError::SloganTooLong)
    } else {
        Ok(s)
    }
}

/// Reads a logo that was sent, and checks it.
pub fn read_logo(business_id: &str, logo_base64: &str) -> (r: Result<NewLogo, BrandingError>)
    ensures
        ({
            let decoded = base64_bytes(trimmed(logo_base64@));
            match r {
                Ok(l) => {
                    &&& logo_refusal(logo_base64@, decoded) is None
                    &&& decoded == Some(l.bytes@)
                    &&& l.file_name@ == file_name_of(business_id@, kind_of(l.bytes@)->0)
                },
                Err(e) => logo_refusal(logo_base64@, decoded) == Some(e),
            }
        }),
{
    let text = trim(logo_base64);
    if is_empty(text.as_str()) {
        return Err(BrandingError::EmptyLogo);
    }
    match base64_decode(text.as_str()) {
        None => Err(BrandingError::NotBase64),
        Some(bytes) => match check_logo(&bytes) {
            Ok(k) => Ok(NewLogo { file_name: logo_file_name(business_id, k), bytes }),
            Err(e) => Err(e),
        },
    }
}

/// Reads a change of branding. Nothing is changed where any part is refused;
/// the logo is looked at first.
pub fn update_branding(
    business_id: &str,
    logo_base64: &Option<String>,
    slogan: &Option<String>,
) -> (r: Result<BrandingUpdate, BrandingError>)
    ensures
        ({
            let logo_no = match opt_view(*logo_base64) {
                Some(l) => logo_refusal(l, base64_bytes(trimmed(l))),
                None => None,
            };
            let slogan_no = match opt_view(*slogan) {
                Some(s) => slogan_refusal(s),
                None => None,
            };
            match r {
                Ok(u) => {
                    &&& logo_no is None && slogan_no is None
                    &&& u.logo is Some <==> *logo_base64 is Some
                    &&& u.logo is Some ==> base64_bytes(trimmed(opt_view(*logo_base64)->0)) == Some(u.logo->0.bytes@)
                        && u.logo->0.file_name@ == file_name_of(business_id@, kind_of(u.logo->0.bytes@)->0)
                    &&& opt_view(u.slogan) == (match opt_view(*slogan) {
                        Some(s) => Some(trimmed(s)),
                        None => None,
                    })
                },
                Err(e) => if logo_no is Some {
                    logo_no == Some(e)
                } else {
                    slogan_no == Some(e)
                },
            }
        }),
{
    let logo = match logo_base64 {
        None => None,
        Some(l) => match read_logo(business_id, l.as_str()) {
            Ok(l) => Some(l),
            Err(e) => {
                return Err(e);
            },
        },
    };
    let slogan = match slogan {
        None => None,
        Some(s) => match check_slogan(s.as_str()) {
            Ok(s) => Some(s),
            Err(e) => {
                return Err(e);
            },
        },
    };
    Ok(BrandingUpdate { logo, slogan })
}

/// No path can hide in a logo's file name: beyond the business's id it holds
/// letters, an underscore and one dot.
pub proof fn law_logo_names_hold_no_path(business_id: Seq<char>, k: LogoKind, c: char)
    requires
        c == '/' || c == '\\',
        !business_id.contains(c),
    ensures
        !file_name_of(business_id, k).contains(c),
{
    reveal_strlit("logo_");
    reveal_strlit(".");
    reveal_strlit("png");
    reveal_strlit("jpg");
    reveal_strlit("svg");
    lemma_without_within(business_id, '-', c);
    let s = file_name_of(business_id, k);
    let id = without(business_id, '-');
    if s.contains(c) {
        let i = choose|i: int| 0 <= i < s.len() && s[i] == c;
        if i >= 5 && i < 5 + id.len() {
            assert(s[i] == id[i - 5]);
            assert(id.contains(c));
        }
    }
}

proof fn lemma_without_within(s: Seq<char>, drop: char, c: char)
    requires
        !s.contains(c),
    ensures
        !without(s, drop).contains(c),
    decreases s.len(),
{
    if s.len() > 0 {
        let front = s.drop_last();
        assert(!front.contains(c)) by {
            if front.contains(c) {
                let i = choose|i: int| 0 <= i < front.len() && front[i] == c;
                assert(s[i] == c);
            }
        }
        lemma_without_within(front, drop, c);
        assert(s[s.len() - 1] != c);
        let out = without(s, drop);
        if out.contains(c) {
            let i = choose|i: int| 0 <= i < out.len() && out[i] == c;
            let before = without(front, drop);
            if i < before.len() {
                assert(before[i] == c);
            }
        }
    }
}

/// The address under which a logo is served, by the last part of its stored
/// path.
pub fn logo_url(file_name: &str) -> (s: String)
    ensures
        s@ == "/uploads/"@ + file_name@,
{
    cat("/uploads/", file_name)
}

/// A logo is served as the kind of image that it was stored as.
pub proof fn law_logos_are_served_as_what_they_are(k: LogoKind)
    ensures
        media_type(Some(ending_of(k))) == match k {
            LogoKind::Png => "image/png"@,
            LogoKind::Jpg => "image/jpeg"@,
            LogoKind::Svg => "image/svg+xml"@,
        },
        media_type(Some("jpeg"@)) == "image/jpeg"@,
        media_type(None) == "application/octet-stream"@,
{
    reveal_strlit("png");
    reveal_strlit("jpg");
    reveal_strlit("jpeg");
    reveal_strlit("svg");
    assert("png"@[0] == 'p' && "jpg"@[0] == 'j' && "svg"@[0] == 's');
    assert("png"@.len() == 3 && "jpg"@.len() == 3 && "svg"@.len() == 3 && "jpeg"@.len() == 4);
    assert("jpeg"@[0] == 'j');
}

/// An image is known by how it begins, whatever follows: a PNG by its eight bytes,
/// a JPEG by its three.
pub proof fn law_images_are_known_by_their_first_bytes(rest: Seq<u8>)
    ensures
        kind_of(seq![0x89u8, 0x50, 0x4E, 0x47, 0x0D, 0x0A, 0x1A, 0x0A] + rest) == Some(LogoKind::Png),
        kind_of(seq![0xFFu8, 0xD8, 0xFF] + rest) == Some(LogoKind::Jpg),
{
    let png = seq![0x89u8, 0x50, 0x4E, 0x47, 0x0D, 0x0A, 0x1A, 0x0A];
    let jpg = seq![0xFFu8, 0xD8, 0xFF];
    assert((png + rest).take(8) =~= png_head());
    assert((jpg + rest).take(3) =~= jpg_head());
    if (jpg + rest).len() >= 8 && (jpg + rest).take(8) == png_head() {
        assert((jpg + rest).take(8)[0] == 0xFFu8);
        assert(png_head()[0] == 0x89u8);
    }
}

/// A logo is taken where it is neither too large nor too small and of a known kind,
/// and a slogan where it is short enough without its outer blanks; and in no other
/// case.
pub proof fn law_which_branding_is_taken(logo: Seq<char>, bytes: Seq<u8>, slogan: Seq<char>)
    ensures
        logo_refusal(logo, Some(bytes)) is None <==> !crate::text::blank(logo) && MIN_LOGO_BYTES <= bytes.len() <= MAX_LOGO_BYTES
            && kind_of(bytes) is Some,
        logo_refusal(logo, None) is Some,
        slogan_refusal(slogan) is None <==> trimmed(slogan).len() <= MAX_SLOGAN_CHARS,
{
}

} // verus!
