//! Packing a project: the project document and the objects' pictures and
//! sounds as one `.ent` archive (a gzip-compressed tar), the zip archive
//! builder, and the sprite metadata that goes with them.

use vstd::prelude::*;
use crate::error::{Error, ErrorKind};
use crate::json::{serde_text, Json};
use crate::text::{owned, push_char, push_str, str_is, char_at, char_len, lower_ascii, lower_string};

verus! {

// ---------------------------------------------------------------------------
// The archive
// ---------------------------------------------------------------------------

/// The zip crate's error type, carried from the writer to its message.
#[verifier::external_type_specification]
#[verifier::external_body]
pub struct ExZipError(zip::result::ZipError);

/// The archive that `zip::ZipWriter` writes for the entries, in order, each
/// compressed with deflate; `None` when the writer refuses them.
pub uninterp spec fn zip_archive(entries: Seq<(Seq<char>, Seq<u8>)>) -> Option<Seq<u8>>;

pub open spec fn entry_views(v: Seq<(String, Vec<u8>)>) -> Seq<(Seq<char>, Seq<u8>)> {
    v.map_values(|e: (String, Vec<u8>)| (e.0@, e.1@))
}

/// Writes the entries with `zip::ZipWriter` into memory, deflate-compressed,
/// with the writer's default file options otherwise.
#[verifier::external_body]
fn write_zip(entries: &Vec<(String, Vec<u8>)>) -> (r: core::result::Result<Vec<u8>, zip::result::ZipError>)
    ensures
        match r {
            Ok(b) => zip_archive(entry_views(entries@)) == Some(b@),
            Err(_) => zip_archive(entry_views(entries@)) is None,
        },
{
    let mut buf: Vec<u8> = Vec::new();
    let mut w = zip::ZipWriter::new(std::io::Cursor::new(&mut buf));
    let opts = zip::write::SimpleFileOptions::default().compression_method(zip::CompressionMethod::Deflated);
    for (name, data) in entries.iter() {
        w.start_file(name.as_str(), opts)?;
        std::io::Write::write_all(&mut w, data)?;
    }
    w.finish()?;
    Ok(buf)
}

/// The `.ent` archive that `tar::Builder` writes through a
/// `flate2::write::GzEncoder` (default compression) for the entries, in
/// order, each a regular file with mode 644 and time 0; `None` where the
/// tar writer refuses an entry's path.
pub uninterp spec fn ent_archive(entries: Seq<(Seq<char>, Seq<u8>)>) -> Option<Seq<u8>>;

/// A character the tar writer takes in a path as it is.
pub open spec fn plain_char(c: char) -> bool {
    ('a' <= c <= 'z') || ('A' <= c <= 'Z') || ('0' <= c <= '9') || c == '.' || c == '_' || c == '-' || c == '/'
}

/// A relative path of 1 to 99 such characters with no `..`: one that fits
/// a tar header's name field and that `tar::Builder::append_data` takes.
pub open spec fn plain_path(n: Seq<char>) -> bool {
    &&& 0 < n.len() < 100
    &&& n[0] != '/'
    &&& forall|i: int| 0 <= i < n.len() ==> plain_char(#[trigger] n[i])
    &&& forall|i: int| 0 <= i < n.len() - 1 ==> !(#[trigger] n[i] == '.' && n[i + 1] == '.')
}

/// Entries whose paths are all plain.
pub open spec fn plain_entries(es: Seq<(Seq<char>, Seq<u8>)>) -> bool {
    forall|i: int| 0 <= i < es.len() ==> plain_path(#[trigger] es[i].0)
}

/// Writes the entries as a gzip-compressed tar. Writing into memory
/// depends on the entries alone (fixed header times and compression
/// level) and fails only where the tar writer refuses an entry's path;
/// nothing is stated of the error's text. The gzip header comes first, so the bytes start with
/// the gzip magic `1f 8b`.
#[verifier::external_body]
fn write_ent(entries: &Vec<(String, Vec<u8>)>) -> (r: core::result::Result<Vec<u8>, String>)
    ensures
        match r {
            Ok(b) => ent_archive(entry_views(entries@)) == Some(b@) && b@.len() >= 2 && b@[0] == 0x1fu8 && b@[1] == 0x8bu8,
            Err(_) => ent_archive(entry_views(entries@)) is None,
        },
        plain_entries(entry_views(entries@)) ==> r is Ok,
{
    let gz = flate2::write::GzEncoder::new(Vec::new(), flate2::Compression::default());
    let mut tar = tar::Builder::new(gz);
    for (name, data) in entries.iter() {
        let mut h = tar::Header::new_gnu();
        h.set_size(data.len() as u64);
        h.set_mode(0o644);
        tar.append_data(&mut h, name.as_str(), data.as_slice()).map_err(|e| e.to_string())?;
    }
    let gz = tar.into_inner().map_err(|e| e.to_string())?;
    gz.finish().map_err(|e| e.to_string())
}

/// The files that `tar::Archive` reads through a `flate2::read::GzDecoder`
/// from `bytes`: each entry's path as text and its contents, in order;
/// `None` when the bytes are no readable gzip-compressed tar.
pub uninterp spec fn ent_files(bytes: Seq<u8>) -> Option<Seq<(Seq<char>, Seq<u8>)>>;

/// Reads the files of a `.ent` archive.
#[verifier::external_body]
fn read_ent(bytes: &[u8]) -> (r: core::result::Result<Vec<(String, Vec<u8>)>, String>)
    ensures
        match r {
            Ok(v) => ent_files(bytes@) == Some(entry_views(v@)),
            Err(_) => ent_files(bytes@) is None,
        },
{
    let mut ar = tar::Archive::new(flate2::read::GzDecoder::new(bytes));
    let mut out = Vec::new();
    for e in ar.entries().map_err(|e| e.to_string())? {
        let mut e = e.map_err(|e| e.to_string())?;
        let path = e.path().map_err(|e| e.to_string())?.to_string_lossy().into_owned();
        let mut data = Vec::new();
        std::io::Read::read_to_end(&mut e, &mut data).map_err(|e| e.to_string())?;
        out.push((path, data));
    }
    Ok(out)
}

/// The files of a `.ent` archive, by path and contents.
pub fn ent_entries(bytes: &[u8]) -> (r: crate::error::Result<Vec<(String, Vec<u8>)>>)
    ensures
        match ent_files(bytes@) {
            Some(fs) => r matches Ok(v) && entry_views(v@) == fs,
            None => r matches Err(e) && e is Pack,
        },
{
    match read_ent(bytes) {
        Ok(v) => Ok(v),
        Err(m) => Err(Error::Pack(m)),
    }
}

/// The message of a zip error (`ToString` of `zip::result::ZipError`).
#[verifier::external_body]
fn zip_error_text(e: &zip::result::ZipError) -> (r: String) {
    e.to_string()
}

/// The files of an archive, in the order they were added.
#[derive(Debug)]
pub struct ZipBuilder {
    entries: Vec<(String, Vec<u8>)>,
}

impl View for ZipBuilder {
    type V = Seq<(Seq<char>, Seq<u8>)>;

    closed spec fn view(&self) -> Seq<(Seq<char>, Seq<u8>)> {
        entry_views(self.entries@)
    }
}

fn copy_bytes(data: &[u8]) -> (r: Vec<u8>)
    ensures
        r@ == data@,
{
    let mut out: Vec<u8> = Vec::new();
    let mut i: usize = 0;
    while i < data.len()
        invariant
            i <= data@.len(),
            out@ == data@.take(i as int),
        decreases data@.len() - i,
    {
        out.push(data[i]);
        proof {
            assert(data@.take(i + 1) =~= data@.take(i as int).push(data@[i as int]));
        }
        i = i + 1;
    }
    proof {
        assert(data@.take(i as int) =~= data@);
    }
    out
}

impl ZipBuilder {
    /// An archive with no files.
    pub fn new() -> (r: ZipBuilder)
        ensures
            r@ == Seq::<(Seq<char>, Seq<u8>)>::empty(),
    {
        let r = ZipBuilder { entries: Vec::new() };
        proof {
            assert(entry_views(r.entries@) =~= Seq::<(Seq<char>, Seq<u8>)>::empty());
        }
        r
    }

    /// Adds the file `name` with the bytes `data`; adding never fails.
    pub fn add_file(&mut self, name: &str, data: &[u8]) -> (r: crate::error::Result<()>)
        ensures
            r is Ok,
            final(self)@ == old(self)@.push((name@, data@)),
    {
        let ghost before = entry_views(self.entries@);
        let e = (owned(name), copy_bytes(data));
        self.entries.push(e);
        proof {
            assert(entry_views(self.entries@) =~= before.push((name@, data@)));
        }
        Ok(())
    }

    /// The archive's bytes; a refusal of the zip writer is a `Pack` error.
    pub fn finish(self) -> (r: crate::error::Result<Vec<u8>>)
        ensures
            match zip_archive(self@) {
                Some(b) => r matches Ok(x) && x@ == b,
                None => r matches Err(e) && e.kind() == ErrorKind::Pack,
            },
    {
        match write_zip(&self.entries) {
            Ok(b) => Ok(b),
            Err(e) => Err(Error::Pack(zip_error_text(&e))),
        }
    }
}

impl Default for ZipBuilder {
    fn default() -> (r: ZipBuilder)
        ensures
            r@ == Seq::<(Seq<char>, Seq<u8>)>::empty(),
    {
        ZipBuilder::new()
    }
}

// ---------------------------------------------------------------------------
// Sprites
// ---------------------------------------------------------------------------

/// The metadata of a picture, as an object's `sprite.pictures` lists it.
#[derive(Debug, Clone)]
pub struct PictureMeta {
    pub id: String,
    pub name: String,
    pub filename: String,
    pub fileurl: String,
    pub thumbname: String,
    pub thumburl: String,
    pub ext: String,
    pub width: u32,
    pub height: u32,
}

/// A picture: its metadata, its bytes, and its thumbnail's bytes if any.
#[derive(Debug)]
pub struct PictureEntry {
    pub meta: PictureMeta,
    pub image: Vec<u8>,
    pub thumb: Option<Vec<u8>>,
}

/// The metadata of a sound.
#[derive(Debug, Clone)]
pub struct SoundMeta {
    pub id: String,
    pub name: String,
    pub filename: String,
    pub fileurl: String,
    pub ext: String,
}

/// A sound: its metadata and its bytes.
#[derive(Debug)]
pub struct SoundEntry {
    pub meta: SoundMeta,
    pub data: Vec<u8>,
}

/// The pictures and sounds of one sprite directory.
#[derive(Debug)]
pub struct SpriteEntry {
    pub name: String,
    pub pictures: Vec<PictureEntry>,
    pub sounds: Vec<SoundEntry>,
}

/// The archive entries of a project: `project.json` (the document's JSON
/// text as serde_json writes it), then for each sprite its pictures (each followed by its
/// thumbnail, if any) and its sounds.
pub open spec fn sprite_entries(s: SpriteEntry) -> Seq<(Seq<char>, Seq<u8>)> {
    pictures_entries(s.pictures@, s.pictures@.len()) + sounds_entries(s.sounds@, s.sounds@.len())
}

pub open spec fn pictures_entries(ps: Seq<PictureEntry>, n: nat) -> Seq<(Seq<char>, Seq<u8>)>
    decreases n,
{
    if n == 0 || n > ps.len() {
        seq![]
    } else {
        let p = ps[n - 1];
        pictures_entries(ps, (n - 1) as nat) + seq![(p.meta.fileurl@, p.image@)] + match p.thumb {
            Some(t) => seq![(p.meta.thumburl@, t@)],
            None => seq![],
        }
    }
}

pub open spec fn sounds_entries(ss: Seq<SoundEntry>, n: nat) -> Seq<(Seq<char>, Seq<u8>)>
    decreases n,
{
    if n == 0 || n > ss.len() {
        seq![]
    } else {
        sounds_entries(ss, (n - 1) as nat).push((ss[n - 1].meta.fileurl@, ss[n - 1].data@))
    }
}

pub open spec fn all_sprite_entries(sprites: Seq<SpriteEntry>, n: nat) -> Seq<(Seq<char>, Seq<u8>)>
    decreases n,
{
    if n == 0 || n > sprites.len() {
        seq![]
    } else {
        all_sprite_entries(sprites, (n - 1) as nat) + sprite_entries(sprites[n - 1])
    }
}

pub open spec fn project_entries(project: crate::json::JsonV, sprites: Seq<SpriteEntry>) -> Seq<(Seq<char>, Seq<u8>)> {
    seq![("project.json"@, vstd::utf8::encode_utf8(serde_text(project)))] + all_sprite_entries(sprites, sprites.len())
}

proof fn lemma_project_json_plain()
    ensures
        plain_path("project.json"@),
{
    reveal_strlit("project.json");
    let n = "project.json"@;
    assert(n.len() == 12);
    assert(forall|i: int| 0 <= i < n.len() ==> plain_char(#[trigger] n[i]));
    assert(forall|i: int| 0 <= i < n.len() - 1 ==> !(#[trigger] n[i] == '.' && n[i + 1] == '.'));
}

/// The `.ent` archive (a gzip-compressed tar) of a project document and
/// its sprites; a `Pack` error exactly when the archive writer refuses an
/// entry's path.
pub fn build(project: &Json, sprites: &Vec<SpriteEntry>) -> (r: crate::error::Result<Vec<u8>>)
    ensures
        match ent_archive(project_entries(project@, sprites@)) {
            Some(b) => r matches Ok(x) && x@ == b && b.len() >= 2 && b[0] == 0x1fu8 && b[1] == 0x8bu8,
            None => r matches Err(e) && e.kind() == ErrorKind::Pack,
        },
        plain_entries(project_entries(project@, sprites@)) ==> r is Ok,
        sprites@.len() == 0 ==> r is Ok,
{
    proof {
        lemma_project_json_plain();
        if sprites@.len() == 0 {
            let es = project_entries(project@, sprites@);
            assert(all_sprite_entries(sprites@, 0) =~= Seq::<(Seq<char>, Seq<u8>)>::empty());
            assert(es.len() == 1);
            assert(plain_entries(es));
        }
    }
    let mut zip = ZipBuilder::new();
    let text = crate::json::to_json_text(project);
    let _ = zip.add_file("project.json", text.as_str().as_bytes());
    let mut i: usize = 0;
    proof {
        assert(zip@ =~= seq![("project.json"@, vstd::utf8::encode_utf8(serde_text(project@)))] + all_sprite_entries(sprites@, 0));
    }
    while i < sprites.len()
        invariant
            i <= sprites@.len(),
            zip@ == seq![("project.json"@, vstd::utf8::encode_utf8(serde_text(project@)))] + all_sprite_entries(sprites@, i as nat),
        decreases sprites@.len() - i,
    {
        let s = &sprites[i];
        let ghost before = zip@;
        let mut k: usize = 0;
        proof {
            assert(before =~= before + pictures_entries(s.pictures@, 0));
        }
        while k < s.pictures.len()
            invariant
                k <= s.pictures@.len(),
                zip@ == before + pictures_entries(s.pictures@, k as nat),
            decreases s.pictures@.len() - k,
        {
            let p = &s.pictures[k];
            let _ = zip.add_file(p.meta.fileurl.as_str(), p.image.as_slice());
            match &p.thumb {
                Some(t) => {
                    let _ = zip.add_file(p.meta.thumburl.as_str(), t.as_slice());
                },
                None => {},
            }
            proof {
                assert(zip@ =~= before + pictures_entries(s.pictures@, (k + 1) as nat));
            }
            k = k + 1;
        }
        let ghost mid = zip@;
        let mut j: usize = 0;
        proof {
            assert(mid =~= mid + sounds_entries(s.sounds@, 0));
        }
        while j < s.sounds.len()
            invariant
                j <= s.sounds@.len(),
                zip@ == mid + sounds_entries(s.sounds@, j as nat),
            decreases s.sounds@.len() - j,
        {
            let so = &s.sounds[j];
            let _ = zip.add_file(so.meta.fileurl.as_str(), so.data.as_slice());
            proof {
                assert(zip@ =~= mid + sounds_entries(s.sounds@, (j + 1) as nat));
            }
            j = j + 1;
        }
        proof {
            assert(zip@ =~= seq![("project.json"@, vstd::utf8::encode_utf8(serde_text(project@)))] + all_sprite_entries(sprites@, (i + 1) as nat));
        }
        i = i + 1;
    }
    match write_ent(&zip.entries) {
        Ok(b) => Ok(b),
        Err(m) => Err(Error::Pack(m)),
    }
}

// ---------------------------------------------------------------------------
// Files of a sprite directory
// ---------------------------------------------------------------------------

pub open spec fn png_signature() -> Seq<u8> {
    seq![0x89u8, 0x50u8, 0x4eu8, 0x47u8, 0x0du8, 0x0au8, 0x1au8, 0x0au8]
}

/// A big-endian 32-bit number at `i`.
pub open spec fn be32(d: Seq<u8>, i: int) -> int {
    d[i] * 16777216 + d[i + 1] * 65536 + d[i + 2] * 256 + d[i + 3]
}

/// Width and height of a PNG image from its header; `None` for bytes that
/// are no PNG header.
pub open spec fn png_size(d: Seq<u8>) -> Option<(int, int)> {
    if d.len() < 24 || d.take(8) != png_signature() {
        None
    } else {
        Some((be32(d, 16), be32(d, 20)))
    }
}

fn be32_at(d: &[u8], i: usize) -> (r: u32)
    requires
        i + 4 <= d@.len(),
    ensures
        r == be32(d@, i as int),
{
    (d[i] as u32) * 16777216 + (d[i + 1] as u32) * 65536 + (d[i + 2] as u32) * 256 + (d[i + 3] as u32)
}

/// Width and height of a PNG image from its header.
pub fn png_dim(data: &[u8]) -> (r: Option<(u32, u32)>)
    ensures
        match png_size(data@) {
            Some((w, h)) => r matches Some((x, y)) && x == w && y == h,
            None => r is None,
        },
{
    if data.len() < 24 {
        return None;
    }
    let sig: [u8; 8] = [0x89, 0x50, 0x4e, 0x47, 0x0d, 0x0a, 0x1a, 0x0a];
    let mut i: usize = 0;
    while i < 8
        invariant
            i <= 8,
            data@.len() >= 24,
            sig@ == png_signature(),
            forall|j: int| 0 <= j < i ==> data@[j] == png_signature()[j],
        decreases 8 - i,
    {
        if data[i] != sig[i] {
            proof {
                assert(data@.take(8)[i as int] != png_signature()[i as int]);
            }
            return None;
        }
        i = i + 1;
    }
    proof {
        assert(data@.take(8) =~= png_signature());
    }
    Some((be32_at(data, 16), be32_at(data, 20)))
}

/// Where a file name splits into stem and extension: its last `.`, unless
/// that is its first character.
pub open spec fn dot_at(name: Seq<char>) -> Option<int> {
    if exists|k: int| 0 < k < name.len() && name[k] == '.' {
        Some(choose|k: int| 0 < k < name.len() && name[k] == '.' && forall|j: int| k < j < name.len() ==> name[j] != '.')
    } else {
        None
    }
}

/// The lower-case extension of a file name (empty when it has none).
pub open spec fn ext_text(name: Seq<char>) -> Seq<char> {
    match dot_at(name) {
        Some(k) => lower_ascii(name.skip(k + 1)),
        None => seq![],
    }
}

/// The stem of a file name: the name without its extension.
pub open spec fn stem_text(name: Seq<char>) -> Seq<char> {
    match dot_at(name) {
        Some(k) => name.take(k),
        None => name,
    }
}

fn last_dot(name: &str) -> (r: Option<usize>)
    ensures
        r matches Some(x) ==> 0 < x < name@.len() && name@[x as int] == '.',
        match dot_at(name@) {
            Some(k) => r matches Some(x) && x as int == k,
            None => r is None,
        },
{
    let n = char_len(name);
    let mut i: usize = n;
    while i > 1
        invariant
            n == name@.len(),
            i <= n,
            forall|j: int| i <= j < n ==> name@[j] != '.',
        decreases i,
    {
        let c = char_at(name, i - 1);
        if c == '.' {
            proof {
                let k = (i - 1) as int;
                assert(0 < k < name@.len() && name@[k] == '.');
                let c0 = choose|k2: int| 0 < k2 < name@.len() && name@[k2] == '.' && forall|j: int| k2 < j < name@.len() ==> name@[j] != '.';
                if c0 < k {
                    assert(name@[k] != '.');
                } else if c0 > k {
                    assert(name@[c0] != '.');
                }
            }
            return Some(i - 1);
        }
        i = i - 1;
    }
    proof {
        assert forall|k: int| 0 < k < name@.len() implies name@[k] != '.' by {
            assert(k >= i);
        }
    }
    None
}

fn substring(s: &str, lo: usize, hi: usize) -> (r: String)
    requires
        lo <= hi <= s@.len(),
    ensures
        r@ == s@.subrange(lo as int, hi as int),
{
    let mut out = String::new();
    let mut i: usize = lo;
    while i < hi
        invariant
            lo <= i <= hi <= s@.len(),
            out@ == s@.subrange(lo as int, i as int),
        decreases hi - i,
    {
        push_char(&mut out, char_at(s, i));
        proof {
            assert(out@ =~= s@.subrange(lo as int, i + 1));
        }
        i = i + 1;
    }
    out
}

/// The lower-case extension of a file name (empty when it has none).
pub fn ext_of(name: &str) -> (r: String)
    ensures
        r@ == ext_text(name@),
{
    match last_dot(name) {
        Some(k) => {
            let n = char_len(name);
            let e = substring(name, k + 1, n);
            proof {
                assert(name@.skip(k + 1) =~= name@.subrange(k + 1, name@.len() as int));
            }
            lower_string(e.as_str())
        },
        None => {
            let r = String::new();
            proof {
                assert(r@ =~= Seq::<char>::empty());
            }
            r
        },
    }
}

/// The stem of a file name.
pub fn stem_of(name: &str) -> (r: String)
    ensures
        r@ == stem_text(name@),
{
    match last_dot(name) {
        Some(k) => {
            let s = substring(name, 0, k);
            proof {
                assert(name@.take(k as int) =~= name@.subrange(0, k as int));
            }
            s
        },
        None => owned(name),
    }
}

pub open spec fn image_ext(e: Seq<char>) -> bool {
    e == "png"@ || e == "jpg"@ || e == "jpeg"@ || e == "gif"@ || e == "svg"@ || e == "webp"@
}

pub open spec fn sound_ext(e: Seq<char>) -> bool {
    e == "mp3"@ || e == "wav"@ || e == "ogg"@ || e == "m4a"@
}

/// Whether an extension is that of a picture.
pub fn is_image(ext: &str) -> (r: bool)
    ensures
        r == image_ext(ext@),
{
    str_is(ext, "png") || str_is(ext, "jpg") || str_is(ext, "jpeg") || str_is(ext, "gif") || str_is(ext, "svg")
        || str_is(ext, "webp")
}

/// Whether an extension is that of a sound.
pub fn is_sound(ext: &str) -> (r: bool)
    ensures
        r == sound_ext(ext@),
{
    str_is(ext, "mp3") || str_is(ext, "wav") || str_is(ext, "ogg") || str_is(ext, "m4a")
}

// ---------------------------------------------------------------------------
// Random names
// ---------------------------------------------------------------------------

/// A number below `n` from `rand::thread_rng().gen_range(0..n)`; nothing
/// else is stated of which number comes.
#[verifier::external_body]
fn random_below(n: usize) -> (r: usize)
    requires
        n > 0,
    ensures
        r < n,
{
    rand::Rng::gen_range(&mut rand::thread_rng(), 0..n)
}

/// Characters of random names: digits and lower-case letters.
pub open spec fn name_alphabet() -> Seq<char> {
    "0123456789abcdefghijklmnopqrstuvwxyz"@
}

pub open spec fn is_random_name(s: Seq<char>, n: nat) -> bool {
    s.len() == n && forall|i: int| 0 <= i < s.len() ==> name_alphabet().contains(#[trigger] s[i])
}

/// `n` random characters from digits and lower-case letters.
pub fn hash_n(n: usize) -> (r: String)
    ensures
        is_random_name(r@, n as nat),
{
    let chars = "0123456789abcdefghijklmnopqrstuvwxyz";
    proof {
        reveal_strlit("0123456789abcdefghijklmnopqrstuvwxyz");
    }
    let len = char_len(chars);
    let mut out = String::new();
    let mut i: usize = 0;
    proof {
        assert(out@ =~= Seq::<char>::empty());
    }
    while i < n
        invariant
            i <= n,
            len == chars@.len(),
            chars@ == name_alphabet(),
            len == 36,
            is_random_name(out@, i as nat),
        decreases n - i,
    {
        let k = random_below(len);
        let c = char_at(chars, k);
        let ghost before = out@;
        push_char(&mut out, c);
        proof {
            assert(name_alphabet()[k as int] == c);
            assert forall|j: int| 0 <= j < out@.len() implies name_alphabet().contains(#[trigger] out@[j]) by {
                if j < before.len() {
                    assert(out@[j] == before[j]);
                } else {
                    assert(out@[j] == c);
                }
            }
        }
        i = i + 1;
    }
    out
}

/// A random id of four characters.
pub fn hash_id() -> (r: String)
    ensures
        is_random_name(r@, 4),
{
    hash_n(4)
}

/// A random file name of thirty-two characters.
pub fn hash_filename() -> (r: String)
    ensures
        is_random_name(r@, 32),
{
    hash_n(32)
}

// ---------------------------------------------------------------------------
// One sprite directory
// ---------------------------------------------------------------------------

/// Which files of a sprite directory become pictures and sounds: each
/// picture with the index of its thumbnail (the first unused `thumb/` file
/// of the same stem), and the sounds of the directory itself and then of
/// `sound/`, as indices into the lists given.
#[derive(Debug)]
pub struct SpritePlan {
    /// Indices of root files that are pictures, with their thumbnails.
    pub pictures: Vec<(usize, Option<usize>)>,
    /// Root files that are sounds.
    pub root_sounds: Vec<usize>,
    /// Files of `sound/` that are sounds.
    pub dir_sounds: Vec<usize>,
}

/// The indices of the first `n` names whose extension passes `keep`.
pub open spec fn kept_indices(names: Seq<Seq<char>>, n: nat, image: bool) -> Seq<usize>
    decreases n,
{
    if n == 0 || n > names.len() {
        seq![]
    } else {
        let p = kept_indices(names, (n - 1) as nat, image);
        let e = ext_text(names[n - 1]);
        if (image && image_ext(e)) || (!image && sound_ext(e)) {
            p.push((n - 1) as usize)
        } else {
            p
        }
    }
}

/// Thumbnails given to the pictures after the first `n` thumbnail files.
pub open spec fn thumbs_after(pics: Seq<usize>, root: Seq<Seq<char>>, thumbs: Seq<Seq<char>>, n: nat) -> Seq<Option<usize>>
    decreases n,
{
    if n == 0 || n > thumbs.len() {
        Seq::new(pics.len(), |i: int| None)
    } else {
        let prev = thumbs_after(pics, root, thumbs, (n - 1) as nat);
        let t = thumbs[n - 1];
        if !image_ext(ext_text(t)) {
            prev
        } else {
            match first_free(pics, root, prev, stem_text(t), 0) {
                Some(i) => prev.update(i, Some((n - 1) as usize)),
                None => prev,
            }
        }
    }
}

/// The first picture of stem `stem` with no thumbnail yet.
pub open spec fn first_free(pics: Seq<usize>, root: Seq<Seq<char>>, th: Seq<Option<usize>>, stem: Seq<char>, k: nat) -> Option<int>
    decreases pics.len() - k,
{
    if k >= pics.len() {
        None
    } else if stem_text(root[pics[k as int] as int]) == stem && th[k as int] is None {
        Some(k as int)
    } else {
        first_free(pics, root, th, stem, k + 1)
    }
}

pub open spec fn string_views(v: Seq<String>) -> Seq<Seq<char>> {
    v.map_values(|s: String| s@)
}

fn kept_of(names: &Vec<String>, image: bool) -> (r: Vec<usize>)
    ensures
        r@ == kept_indices(string_views(names@), names@.len(), image),
        forall|j: int| 0 <= j < r@.len() ==> r@[j] < names@.len(),
{
    let ghost nv = string_views(names@);
    let mut out: Vec<usize> = Vec::new();
    let mut i: usize = 0;
    while i < names.len()
        invariant
            i <= names.len(),
            nv == string_views(names@),
            out@ == kept_indices(nv, i as nat, image),
            forall|j: int| 0 <= j < out@.len() ==> out@[j] < i,
        decreases names.len() - i,
    {
        let e = ext_of(names[i].as_str());
        proof {
            assert(nv[i as int] == names@[i as int]@);
        }
        let keep = if image {
            is_image(e.as_str())
        } else {
            is_sound(e.as_str())
        };
        if keep {
            out.push(i);
        }
        i = i + 1;
    }
    out
}

/// Decides, from the file names of a sprite directory (`root`), of its
/// `thumb/` folder and of its `sound/` folder, which files are pictures,
/// which thumbnails belong to which picture, and which files are sounds.
pub fn plan_sprite(root: &Vec<String>, thumbs: &Vec<String>, sounds: &Vec<String>) -> (r: SpritePlan)
    ensures
        r.pictures@.map_values(|p: (usize, Option<usize>)| p.0) == kept_indices(string_views(root@), root@.len(), true),
        r.pictures@.map_values(|p: (usize, Option<usize>)| p.1) == thumbs_after(
            kept_indices(string_views(root@), root@.len(), true),
            string_views(root@),
            string_views(thumbs@),
            thumbs@.len(),
        ),
        r.root_sounds@ == kept_indices(string_views(root@), root@.len(), false),
        r.dir_sounds@ == kept_indices(string_views(sounds@), sounds@.len(), false),
{
    let pics = kept_of(root, true);
    let ghost rv = string_views(root@);
    let ghost tv = string_views(thumbs@);
    let mut th: Vec<Option<usize>> = Vec::new();
    let mut k: usize = 0;
    while k < pics.len()
        invariant
            k <= pics@.len(),
            th@ == Seq::new(k as nat, |i: int| None::<usize>),
        decreases pics@.len() - k,
    {
        th.push(None);
        proof {
            assert(th@ =~= Seq::new((k + 1) as nat, |i: int| None::<usize>));
        }
        k = k + 1;
    }
    let mut t: usize = 0;
    while t < thumbs.len()
        invariant
            t <= thumbs.len(),
            rv == string_views(root@),
            tv == string_views(thumbs@),
            pics@ == kept_indices(rv, root@.len(), true),
            forall|i: int| 0 <= i < pics@.len() ==> pics@[i] < root@.len(),
            th@ == thumbs_after(pics@, rv, tv, t as nat),
            th@.len() == pics@.len(),
        decreases thumbs.len() - t,
    {
        proof {
            assert(tv[t as int] == thumbs@[t as int]@);
        }
        let e = ext_of(thumbs[t].as_str());
        if is_image(e.as_str()) {
            let st = stem_of(thumbs[t].as_str());
            let mut q: usize = pics.len();
            let mut found: Option<usize> = None;
            while q > 0
                invariant
                    q <= pics@.len(),
                    th@.len() == pics@.len(),
                    rv == string_views(root@),
                    forall|i: int| 0 <= i < pics@.len() ==> pics@[i] < root@.len(),
                    match first_free(pics@, rv, th@, st@, q as nat) {
                        Some(i) => found matches Some(x) && x as int == i,
                        None => found is None,
                    },
                decreases q,
            {
                q = q - 1;
                let s2 = stem_of(root[pics[q]].as_str());
                proof {
                    assert(rv[pics@[q as int] as int] == root@[pics@[q as int] as int]@);
                }
                if str_is(s2.as_str(), st.as_str()) && th[q].is_none() {
                    found = Some(q);
                }
            }
            match found {
                Some(i) => {
                    proof {
                        lemma_first_free(pics@, rv, th@, st@, 0);
                    }
                    th.set(i, Some(t));
                },
                None => {},
            }
        }
        t = t + 1;
    }
    let mut pictures: Vec<(usize, Option<usize>)> = Vec::new();
    let mut i: usize = 0;
    while i < pics.len()
        invariant
            i <= pics@.len(),
            th@.len() == pics@.len(),
            pictures@.map_values(|p: (usize, Option<usize>)| p.0) == pics@.take(i as int),
            pictures@.map_values(|p: (usize, Option<usize>)| p.1) == th@.take(i as int),
        decreases pics@.len() - i,
    {
        let ghost b0 = pictures@.map_values(|p: (usize, Option<usize>)| p.0);
        let ghost b1 = pictures@.map_values(|p: (usize, Option<usize>)| p.1);
        pictures.push((pics[i], th[i]));
        proof {
            assert(pictures@.map_values(|p: (usize, Option<usize>)| p.0) =~= b0.push(pics@[i as int]));
            assert(pictures@.map_values(|p: (usize, Option<usize>)| p.1) =~= b1.push(th@[i as int]));
            assert(pics@.take(i + 1) =~= pics@.take(i as int).push(pics@[i as int]));
            assert(th@.take(i + 1) =~= th@.take(i as int).push(th@[i as int]));
        }
        i = i + 1;
    }
    proof {
        assert(pics@.take(i as int) =~= pics@);
        assert(th@.take(i as int) =~= th@);
    }
    SpritePlan { pictures, root_sounds: kept_of(root, false), dir_sounds: kept_of(sounds, false) }
}

proof fn lemma_first_free(pics: Seq<usize>, root: Seq<Seq<char>>, th: Seq<Option<usize>>, stem: Seq<char>, k: nat)
    ensures
        first_free(pics, root, th, stem, k) matches Some(i) ==> k <= i < pics.len(),
    decreases pics.len() - k,
{
    if k < pics.len() {
        lemma_first_free(pics, root, th, stem, k + 1);
    }
}

/// A picture of stem `stem` and extension `ext`, with its bytes and its
/// thumbnail's extension and bytes: random id and file names, and the size
/// from a PNG header (100 by 100 when there is none).
pub fn picture_entry(stem: &str, ext: &str, image: Vec<u8>, thumb: Option<(String, Vec<u8>)>) -> (r: PictureEntry)
    ensures
        r.meta.name@ == stem@,
        r.meta.ext@ == ext@,
        r.image@ == image@,
        is_random_name(r.meta.id@, 4),
        is_random_name(r.meta.filename@, 32),
        r.meta.fileurl@ == "image/"@ + r.meta.filename@ + seq!['.'] + ext@,
        match png_size(image@) {
            Some((w, h)) => r.meta.width == w && r.meta.height == h,
            None => r.meta.width == 100 && r.meta.height == 100,
        },
        match thumb {
            Some((te, td)) => r.thumb matches Some(t) && t@ == td@ && is_random_name(r.meta.thumbname@, 32)
                && r.meta.thumburl@ == "thumb/"@ + r.meta.thumbname@ + seq!['.'] + te@,
            None => r.thumb is None && r.meta.thumbname@ == Seq::<char>::empty() && r.meta.thumburl@
                == Seq::<char>::empty(),
        },
{
    let (width, height) = match png_dim(image.as_slice()) {
        Some(d) => d,
        None => (100, 100),
    };
    let filename = hash_filename();
    let mut fileurl = String::new();
    push_str(&mut fileurl, "image/");
    push_str(&mut fileurl, filename.as_str());
    push_char(&mut fileurl, '.');
    push_str(&mut fileurl, ext);
    proof {
        assert(fileurl@ =~= "image/"@ + filename@ + seq!['.'] + ext@);
    }
    let (thumbname, thumburl, thumb_data) = match thumb {
        Some((te, td)) => {
            let tname = hash_filename();
            let mut turl = String::new();
            push_str(&mut turl, "thumb/");
            push_str(&mut turl, tname.as_str());
            push_char(&mut turl, '.');
            push_str(&mut turl, te.as_str());
            proof {
                assert(turl@ =~= "thumb/"@ + tname@ + seq!['.'] + te@);
            }
            (tname, turl, Some(td))
        },
        None => {
            let a = String::new();
            let b = String::new();
            proof {
                assert(a@ =~= Seq::<char>::empty());
                assert(b@ =~= Seq::<char>::empty());
            }
            (a, b, None)
        },
    };
    PictureEntry {
        meta: PictureMeta {
            id: hash_id(),
            name: owned(stem),
            filename,
            fileurl,
            thumbname,
            thumburl,
            ext: owned(ext),
            width,
            height,
        },
        image,
        thumb: thumb_data,
    }
}

/// A sound of stem `stem` and extension `ext` with its bytes: random id and
/// file name.
pub fn sound_entry(stem: &str, ext: &str, data: Vec<u8>) -> (r: SoundEntry)
    ensures
        r.meta.name@ == stem@,
        r.meta.ext@ == ext@,
        r.data@ == data@,
        is_random_name(r.meta.id@, 4),
        is_random_name(r.meta.filename@, 32),
        r.meta.fileurl@ == "sound/"@ + r.meta.filename@ + seq!['.'] + ext@,
{
    let filename = hash_filename();
    let mut fileurl = String::new();
    push_str(&mut fileurl, "sound/");
    push_str(&mut fileurl, filename.as_str());
    push_char(&mut fileurl, '.');
    push_str(&mut fileurl, ext);
    proof {
        assert(fileurl@ =~= "sound/"@ + filename@ + seq!['.'] + ext@);
    }
    SoundEntry { meta: SoundMeta { id: hash_id(), name: owned(stem), filename, fileurl, ext: owned(ext) }, data }
}

} // verus!
