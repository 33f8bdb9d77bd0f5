//! Metadata of a disc: type, region, maker and title, parsed from the
//! unscrambled sector 0.

use vstd::prelude::*;
use crate::error::{Error, Result};
use crate::text::{push_char, push_decimal, decimal, chars_of};

verus! {

/// The type of a disc.
#[derive(Debug, Clone, Copy, PartialEq, Eq, Structural)]
pub enum DiscType {
    /// GameCube.
    GameCube,
    /// Wii, one layer.
    Wii,
    /// Wii, two layers.
    WiiDl,
    /// Plain DVD.
    Dvd,
}

impl DiscType {
    /// The display name of the type.
    pub fn as_str(self) -> (s: &'static str)
        ensures
            s == match self {
                DiscType::GameCube => "GameCube",
                DiscType::Wii => "Wii",
                DiscType::WiiDl => "Wii_DL",
                DiscType::Dvd => "DVD",
            },
    {
        match self {
            DiscType::GameCube => "GameCube",
            DiscType::Wii => "Wii",
            DiscType::WiiDl => "Wii_DL",
            DiscType::Dvd => "DVD",
        }
    }

    /// Whether the disc is a Wii disc (one or two layers).
    pub fn is_wii(self) -> (r: bool)
        ensures
            r == (self == DiscType::Wii || self == DiscType::WiiDl),
    {
        match self {
            DiscType::Wii | DiscType::WiiDl => true,
            _ => false,
        }
    }
}

/// The region of a disc.
#[derive(Debug, Clone, Copy, PartialEq, Eq, Structural)]
pub enum DiscRegion {
    /// Europe/PAL.
    Pal,
    /// USA/NTSC.
    Ntsc,
    /// Japan/NTSC.
    Japan,
    /// Australia/PAL.
    Australia,
    /// France/PAL.
    France,
    /// Germany/PAL.
    Germany,
    /// Italy/PAL.
    Italy,
    /// Spain/PAL.
    Spain,
    /// Europe(X)/PAL.
    PalX,
    /// Europe(Y)/PAL.
    PalY,
    /// Unknown.
    Unknown,
}

/// The region of a region code letter.
pub open spec fn region_of_code(c: u8) -> DiscRegion {
    if c == 0x50 {
        DiscRegion::Pal
    } else if c == 0x45 {
        DiscRegion::Ntsc
    } else if c == 0x4A {
        DiscRegion::Japan
    } else if c == 0x55 {
        DiscRegion::Australia
    } else if c == 0x46 {
        DiscRegion::France
    } else if c == 0x44 {
        DiscRegion::Germany
    } else if c == 0x49 {
        DiscRegion::Italy
    } else if c == 0x53 {
        DiscRegion::Spain
    } else if c == 0x58 {
        DiscRegion::PalX
    } else if c == 0x59 {
        DiscRegion::PalY
    } else {
        DiscRegion::Unknown
    }
}

/// The region code letter of each region (P Europe, E USA, J Japan,
/// U Australia, F France, D Germany, I Italy, S Spain, X and Y Europe);
/// none for an unknown region.
pub open spec fn region_letter(r: DiscRegion) -> Option<u8> {
    match r {
        DiscRegion::Pal => Some(0x50u8),
        DiscRegion::Ntsc => Some(0x45u8),
        DiscRegion::Japan => Some(0x4Au8),
        DiscRegion::Australia => Some(0x55u8),
        DiscRegion::France => Some(0x46u8),
        DiscRegion::Germany => Some(0x44u8),
        DiscRegion::Italy => Some(0x49u8),
        DiscRegion::Spain => Some(0x53u8),
        DiscRegion::PalX => Some(0x58u8),
        DiscRegion::PalY => Some(0x59u8),
        DiscRegion::Unknown => None,
    }
}

/// A region code letter names the region that has that letter, and each
/// known region is named by its letter: decoding a letter and taking the
/// letter back gives the letter, and any other byte is an unknown region.
pub proof fn lemma_region_letters(c: u8, r: DiscRegion)
    ensures
        region_of_code(c) != DiscRegion::Unknown ==> region_letter(region_of_code(c)) == Some(c),
        region_of_code(c) == DiscRegion::Unknown ==> (forall|k: DiscRegion| #[trigger] region_letter(k) != Some(c)),
        region_letter(r) matches Some(l) ==> region_of_code(l) == r,
{
}

impl DiscRegion {
    /// The display name of the region.
    pub fn as_str(self) -> (s: &'static str)
        ensures
            s == match self {
                DiscRegion::Pal => "Europe/PAL",
                DiscRegion::Ntsc => "USA/NTSC",
                DiscRegion::Japan => "Japan/NTSC",
                DiscRegion::Australia => "Australia/PAL",
                DiscRegion::France => "France/PAL",
                DiscRegion::Germany => "Germany/PAL",
                DiscRegion::Italy => "Italy/PAL",
                DiscRegion::Spain => "Spain/PAL",
                DiscRegion::PalX => "Europe(X)/PAL",
                DiscRegion::PalY => "Europe(Y)/PAL",
                DiscRegion::Unknown => "Unknown",
            },
    {
        match self {
            DiscRegion::Pal => "Europe/PAL",
            DiscRegion::Ntsc => "USA/NTSC",
            DiscRegion::Japan => "Japan/NTSC",
            DiscRegion::Australia => "Australia/PAL",
            DiscRegion::France => "France/PAL",
            DiscRegion::Germany => "Germany/PAL",
            DiscRegion::Italy => "Italy/PAL",
            DiscRegion::Spain => "Spain/PAL",
            DiscRegion::PalX => "Europe(X)/PAL",
            DiscRegion::PalY => "Europe(Y)/PAL",
            DiscRegion::Unknown => "Unknown",
        }
    }

    /// The region of the region code letter `c` (P, E, J, U, F, D, I, S, X, Y).
    fn from_code(c: u8) -> (r: Self)
        ensures
            r == region_of_code(c),
    {
        match c {
            0x50 => DiscRegion::Pal,
            0x45 => DiscRegion::Ntsc,
            0x4A => DiscRegion::Japan,
            0x55 => DiscRegion::Australia,
            0x46 => DiscRegion::France,
            0x44 => DiscRegion::Germany,
            0x49 => DiscRegion::Italy,
            0x53 => DiscRegion::Spain,
            0x58 => DiscRegion::PalX,
            0x59 => DiscRegion::PalY,
            _ => DiscRegion::Unknown,
        }
    }
}

/// The information of sector 0.
#[derive(Debug, Clone)]
pub struct DiscInfo {
    /// Target system letter ('G', 'R', ...).
    pub system_id: u8,
    /// Game ID (two characters).
    pub game_id: String,
    /// Region.
    pub region: DiscRegion,
    /// Maker code (two characters).
    pub maker: String,
    /// Version number.
    pub version: u8,
    /// Version as `1.xx`.
    pub version_string: String,
    /// Game title.
    pub title: String,
}

/// Start of the title field.
pub const TITLE_OFFSET: usize = 0x0020;

/// Length of the title field.
pub const TITLE_MAX: usize = 0x03E0;

/// The characters of bytes read as Latin-1.
pub open spec fn latin1_chars(b: Seq<u8>) -> Seq<char> {
    b.map_values(|x: u8| x as char)
}

/// The position of the first NUL byte of `b` at or after `i`, or its length.
pub open spec fn nul_from(b: Seq<u8>, i: int) -> int
    decreases b.len() - i,
{
    if i >= b.len() {
        b.len() as int
    } else if b[i] == 0 {
        i
    } else {
        nul_from(b, i + 1)
    }
}

/// The position of the first NUL byte of `b`, or its length.
pub open spec fn nul_position(b: Seq<u8>) -> int {
    nul_from(b, 0)
}

/// The white space bytes of C `isspace`: space, tab, line feed, vertical
/// tab, form feed, carriage return.
pub open spec fn is_ascii_ws(x: u8) -> bool {
    x == 0x20 || (0x09 <= x && x <= 0x0D)
}

/// `b` without its trailing ASCII whitespace.
pub open spec fn strip_trailing_ws(b: Seq<u8>) -> Seq<u8>
    decreases b.len(),
{
    if b.len() > 0 && is_ascii_ws(b.last()) {
        strip_trailing_ws(b.drop_last())
    } else {
        b
    }
}

/// The title of a title field: the bytes before the first NUL, without
/// trailing whitespace, read as Latin-1.
pub open spec fn title_of(field: Seq<u8>) -> Seq<char> {
    latin1_chars(strip_trailing_ws(field.subrange(0, nul_position(field))))
}

/// The version string `1.xx` of a version number (at least two digits).
pub open spec fn version_string_of(v: u8) -> Seq<char> {
    seq!['1', '.'] + if v < 10 { seq!['0'] + decimal(v as nat) } else { decimal(v as nat) }
}

/// The information of sector 0 `buf`.
pub open spec fn sector0_info(info: DiscInfo, buf: Seq<u8>) -> bool {
    &&& info.system_id == buf[0]
    &&& info.game_id@ == latin1_chars(buf.subrange(1, 3))
    &&& info.region == region_of_code(buf[3])
    &&& info.maker@ == latin1_chars(buf.subrange(4, 6))
    &&& info.version == buf[7]
    &&& info.version_string@ == version_string_of(buf[7])
    &&& info.title@ == title_of(buf.subrange(0x20int, 0x400int))
}

/// The string of bytes `lo..hi` of `buf` read as Latin-1.
fn latin1(buf: &[u8], lo: usize, hi: usize) -> (s: String)
    requires
        lo <= hi <= buf@.len(),
    ensures
        s@ == latin1_chars(buf@.subrange(lo as int, hi as int)),
{
    let mut s = String::new();
    let mut i = lo;
    while i < hi
        invariant
            lo <= i <= hi <= buf@.len(),
            s@ =~= latin1_chars(buf@.subrange(lo as int, i as int)),
        decreases hi - i,
    {
        push_char(&mut s, buf[i] as char);
        i = i + 1;
    }
    s
}

/// The first NUL of the bytes `lo..hi` of `buf`, relative to `lo`, or their
/// number.
fn find_nul(buf: &[u8], lo: usize, hi: usize) -> (p: usize)
    requires
        lo <= hi <= buf@.len(),
    ensures
        p == nul_position(buf@.subrange(lo as int, hi as int)),
        p <= hi - lo,
{
    let ghost b = buf@.subrange(lo as int, hi as int);
    let mut i = lo;
    while i < hi && buf[i] != 0
        invariant
            lo <= i <= hi <= buf@.len(),
            b == buf@.subrange(lo as int, hi as int),
            nul_from(b, 0) == nul_from(b, i - lo),
        decreases hi - i,
    {
        i = i + 1;
    }
    i - lo
}

/// Parses the title field at bytes `lo..lo+len` of `buf`.
fn parse_title(buf: &[u8], lo: usize, len: usize) -> (s: String)
    requires
        lo + len <= buf@.len(),
    ensures
        s@ == title_of(buf@.subrange(lo as int, lo + len)),
{
    let blen = buf.len();
    let end = find_nul(buf, lo, lo + len);
    let mut n = end;
    assert(buf@.subrange(lo as int, lo + len).subrange(0, end as int) =~= buf@.subrange(lo as int, lo + end));
    while n > 0 && (buf[lo + n - 1] == 0x20 || (buf[lo + n - 1] >= 0x09 && buf[lo + n - 1] <= 0x0D))
        invariant
            n <= end <= len,
            blen == buf@.len(),
            lo + len <= buf@.len(),
            strip_trailing_ws(buf@.subrange(lo as int, lo + end)) == strip_trailing_ws(buf@.subrange(lo as int, lo + n)),
        decreases n,
    {
        assert(buf@.subrange(lo as int, lo + n).drop_last() =~= buf@.subrange(lo as int, lo + n - 1));
        n = n - 1;
    }
    latin1(buf, lo, lo + n)
}

/// The version string `1.xx` of version `v`.
fn version_string(v: u8) -> (s: String)
    ensures
        s@ == version_string_of(v),
{
    let mut s = String::new();
    push_char(&mut s, '1');
    push_char(&mut s, '.');
    if v < 10 {
        push_char(&mut s, '0');
    }
    push_decimal(&mut s, v as u64);
    assert(s@ =~= version_string_of(v));
    s
}

/// Parses the unscrambled sector 0; fails if `buf` is shorter than a sector.
pub fn parse_sector0(buf: &[u8]) -> (r: Result<DiscInfo>)
    ensures
        r is Ok <==> buf@.len() >= 2048,
        r matches Err(e) ==> e is InvalidArgument,
        r matches Ok(info) ==> sector0_info(info, buf@),
{
    if buf.len() < 2048 {
        return Err(Error::InvalidArgument(String::from_str("sector 0 buffer is shorter than a sector")));
    }
    let system_id = buf[0];
    let game_id = latin1(buf, 1, 3);
    let region = DiscRegion::from_code(buf[3]);
    let maker = latin1(buf, 4, 6);
    let version = buf[7];
    let version_string = version_string(version);
    let title = parse_title(buf, TITLE_OFFSET, TITLE_MAX);
    Ok(DiscInfo { system_id, game_id, region, maker, version, version_string, title })
}

/// ASCII lowercase of a character.
pub open spec fn ascii_lower(c: char) -> char {
    if 'A' <= c <= 'Z' {
        ((c as u32) + 32) as char
    } else {
        c
    }
}

/// Two character sequences are equal ignoring ASCII case.
pub open spec fn eq_ignore_ascii_case(a: Seq<char>, b: Seq<char>) -> bool {
    a.len() == b.len() && forall|i: int| 0 <= i < a.len() ==> #[trigger] ascii_lower(a[i]) == ascii_lower(b[i])
}

fn lower(c: char) -> (r: char)
    ensures
        r == ascii_lower(c),
{
    if c >= 'A' && c <= 'Z' {
        let b = (c as u32 + 32) as u8;
        b as char
    } else {
        c
    }
}

fn chars_eq_ignore_case(a: &[char], b: &[char]) -> (r: bool)
    ensures
        r == eq_ignore_ascii_case(a@, b@),
{
    if a.len() != b.len() {
        return false;
    }
    let mut i: usize = 0;
    while i < a.len()
        invariant
            i <= a@.len(),
            a@.len() == b@.len(),
            forall|k: int| 0 <= k < i ==> #[trigger] ascii_lower(a@[k]) == ascii_lower(b@[k]),
        decreases a@.len() - i,
    {
        if lower(a[i]) != lower(b[i]) {
            return false;
        }
        i = i + 1;
    }
    true
}

/// The table of maker codes and names.
pub const MAKER_TABLE: [(&'static str, &'static str); 373] = [
    ("0A", "Jaleco"),
    ("0B", "Coconuts Japan"),
    ("0C", "Coconuts Japan / G.X.Media"),
    ("0D", "Micronet"),
    ("0E", "Technos"),
    ("0F", "Mebio Software"),
    ("0G", "Shouei System"),
    ("0H", "Starfish"),
    ("0J", "Mitsui Fudosan / Dentsu"),
    ("0L", "Warashi Inc."),
    ("0N", "Nowpro"),
    ("0P", "Game Village"),
    ("0Q", "IE Institute"),
    ("01", "Nintendo"),
    ("02", "Rocket Games / Ajinomoto"),
    ("03", "Imagineer-Zoom"),
    ("04", "Gray Matter"),
    ("05", "Zamuse"),
    ("06", "Falcom"),
    ("07", "Enix"),
    ("08", "Capcom"),
    ("09", "Hot B Co."),
    ("1A", "Yanoman"),
    ("1C", "Tecmo Products"),
    ("1D", "Japan Glary Business"),
    ("1E", "Forum / OpenSystem"),
    ("1F", "Virgin Games (Japan)"),
    ("1G", "SMDE"),
    ("1J", "Daikokudenki"),
    ("1P", "Creatures Inc."),
    ("1Q", "TDK Deep Impresion"),
    ("2A", "Culture Brain"),
    ("2C", "Palsoft"),
    ("2D", "Visit Co.,Ltd."),
    ("2E", "Intec"),
    ("2F", "System Sacom"),
    ("2G", "Poppo"),
    ("2H", "Ubisoft Japan"),
    ("2J", "Media Works"),
    ("2K", "NEC InterChannel"),
    ("2L", "Tam"),
    ("2M", "Jordan"),
    ("2N", "Smilesoft / Rocket"),
    ("2Q", "Mediakite"),
    ("3B", "Arcade Zone Ltd"),
    ("3C", "Entertainment International / Empire Software"),
    ("3D", "Loriciel"),
    ("3E", "Gremlin Graphics"),
    ("3F", "K.Amusement Leasing Co."),
    ("4B", "Raya Systems"),
    ("4C", "Renovation Products"),
    ("4D", "Malibu Games"),
    ("4F", "Eidos"),
    ("4G", "Playmates Interactive"),
    ("4J", "Fox Interactive"),
    ("4K", "Time Warner Interactive"),
    ("4Q", "Disney Interactive"),
    ("4S", "Black Pearl"),
    ("4U", "Advanced Productions"),
    ("4X", "GT Interactive"),
    ("4Y", "RARE"),
    ("4Z", "Crave Entertainment"),
    ("5A", "Mindscape / Red Orb Entertainment"),
    ("5B", "Romstar"),
    ("5C", "Taxan"),
    ("5D", "Midway / Tradewest"),
    ("5F", "American Softworks"),
    ("5G", "Majesco Sales Inc"),
    ("5H", "3DO"),
    ("5K", "Hasbro"),
    ("5L", "NewKidCo"),
    ("5M", "Telegames"),
    ("5N", "Metro3D"),
    ("5P", "Vatical Entertainment"),
    ("5Q", "LEGO Media"),
    ("5S", "Xicat Interactive"),
    ("5T", "Cryo Interactive"),
    ("5W", "Red Storm Entertainment"),
    ("5X", "Microids"),
    ("5Z", "Data Design / Conspiracy / Swing"),
    ("6B", "Laser Beam"),
    ("6E", "Elite Systems"),
    ("6F", "Electro Brain"),
    ("6G", "The Learning Company"),
    ("6H", "BBC"),
    ("6J", "Software 2000"),
    ("6K", "UFO Interactive Games"),
    ("6L", "BAM! Entertainment"),
    ("6M", "Studio 3"),
    ("6Q", "Classified Games"),
    ("6S", "TDK Mediactive"),
    ("6U", "DreamCatcher"),
    ("6V", "JoWood Produtions"),
    ("6W", "Sega"),
    ("6X", "Wannado Edition"),
    ("6Y", "LSP (Light & Shadow Prod.)"),
    ("6Z", "ITE Media"),
    ("7A", "Triffix Entertainment"),
    ("7C", "Microprose Software"),
    ("7D", "Sierra / Universal Interactive"),
    ("7F", "Kemco"),
    ("7G", "Rage Software"),
    ("7H", "Encore"),
    ("7J", "Zoo"),
    ("7K", "Kiddinx"),
    ("7L", "Simon & Schuster Interactive"),
    ("7M", "Asmik Ace Entertainment Inc."),
    ("7N", "Empire Interactive"),
    ("7Q", "Jester Interactive"),
    ("7S", "Rockstar Games"),
    ("7T", "Scholastic"),
    ("7U", "Ignition Entertainment"),
    ("7V", "Summitsoft"),
    ("7W", "Stadlbauer"),
    ("8B", "BulletProof Software (BPS)"),
    ("8C", "Vic Tokai Inc."),
    ("8E", "Character Soft"),
    ("8F", "I'Max"),
    ("8G", "Saurus"),
    ("8J", "General Entertainment"),
    ("8N", "Success"),
    ("8P", "Sega Japan"),
    ("9A", "Nichibutsu / Nihon Bussan"),
    ("9B", "Tecmo"),
    ("9C", "Imagineer"),
    ("9F", "Nova"),
    ("9G", "Take2 / Den'Z / Global Star"),
    ("9H", "Bottom Up"),
    ("9J", "TGL (Technical Group Laboratory)"),
    ("9L", "Hasbro Japan"),
    ("9N", "Marvelous Entertainment"),
    ("9P", "Keynet Inc."),
    ("9Q", "Hands-On Entertainment"),
    ("12", "Infocom"),
    ("13", "Electronic Arts Japan"),
    ("15", "Cobra Team"),
    ("16", "Human / Field"),
    ("17", "KOEI"),
    ("18", "Hudson Soft"),
    ("19", "S.C.P."),
    ("20", "Destination Software / Zoo Games / KSS"),
    ("21", "Sunsoft / Tokai Engineering"),
    ("22", "POW (Planning Office Wada) / VR1 Japan"),
    ("23", "Micro World"),
    ("25", "San-X"),
    ("26", "Enix"),
    ("27", "Loriciel / Electro Brain"),
    ("28", "Kemco Japan"),
    ("29", "Seta"),
    ("30", "Viacom"),
    ("31", "Carrozzeria"),
    ("32", "Dynamic"),
    ("34", "Magifact"),
    ("35", "Hect"),
    ("36", "Codemasters"),
    ("37", "Taito / GAGA Communications"),
    ("38", "Laguna"),
    ("39", "Telstar / Event / Taito"),
    ("40", "Seika Corp."),
    ("41", "Ubi Soft Entertainment"),
    ("42", "Sunsoft US"),
    ("44", "Life Fitness"),
    ("46", "System 3"),
    ("47", "Spectrum Holobyte"),
    ("49", "IREM"),
    ("50", "Absolute Entertainment"),
    ("51", "Acclaim"),
    ("52", "Activision"),
    ("53", "American Sammy"),
    ("54", "Take 2 Interactive / GameTek"),
    ("55", "Hi Tech"),
    ("56", "LJN LTD."),
    ("58", "Mattel"),
    ("60", "Titus"),
    ("61", "Virgin Interactive"),
    ("62", "Maxis"),
    ("64", "LucasArts Entertainment"),
    ("67", "Ocean"),
    ("68", "Bethesda Softworks"),
    ("69", "Electronic Arts"),
    ("70", "Atari (Infogrames)"),
    ("71", "Interplay"),
    ("72", "JVC (US)"),
    ("73", "Parker Brothers"),
    ("75", "Sales Curve (Storm / SCI)"),
    ("78", "THQ"),
    ("79", "Accolade"),
    ("80", "Misawa"),
    ("81", "Teichiku"),
    ("82", "Namco Ltd."),
    ("83", "LOZC"),
    ("84", "KOEI"),
    ("86", "Tokuma Shoten Intermedia"),
    ("87", "Tsukuda Original"),
    ("88", "DATAM-Polystar"),
    ("90", "Takara Amusement"),
    ("91", "Chun Soft"),
    ("92", "Video System / Mc O' River"),
    ("93", "BEC"),
    ("95", "Varie"),
    ("96", "Yonezawa / S'pal"),
    ("97", "Kaneko"),
    ("99", "Marvelous Entertainment"),
    ("A0", "Telenet"),
    ("A1", "Hori"),
    ("A4", "Konami"),
    ("A5", "K.Amusement Leasing Co."),
    ("A6", "Kawada"),
    ("A7", "Takara"),
    ("A9", "Technos Japan Corp."),
    ("AA", "JVC / Victor"),
    ("AC", "Toei Animation"),
    ("AD", "Toho"),
    ("AF", "Namco"),
    ("AG", "Media Rings Corporation"),
    ("AH", "J-Wing"),
    ("AJ", "Pioneer LDC"),
    ("AK", "KID"),
    ("AL", "Mediafactory"),
    ("AP", "Infogrames / Hudson"),
    ("AQ", "Kiratto. Ludic Inc"),
    ("B0", "Acclaim Japan"),
    ("B1", "ASCII"),
    ("B2", "Bandai"),
    ("B4", "Enix"),
    ("B6", "HAL Laboratory"),
    ("B7", "SNK"),
    ("B9", "Pony Canyon"),
    ("BA", "Culture Brain"),
    ("BB", "Sunsoft"),
    ("BC", "Toshiba EMI"),
    ("BD", "Sony Imagesoft"),
    ("BF", "Sammy"),
    ("BG", "Magical"),
    ("BH", "Visco"),
    ("BJ", "Compile"),
    ("BL", "MTO Inc."),
    ("BN", "Sunrise Interactive"),
    ("BP", "Global A Entertainment"),
    ("BQ", "Fuuki"),
    ("C0", "Taito"),
    ("C2", "Kemco"),
    ("C3", "Square"),
    ("C4", "Tokuma Shoten"),
    ("C5", "Data East"),
    ("C6", "Tonkin House / Tokyo Shoseki"),
    ("C8", "Koei"),
    ("CA", "Konami / Ultra / Palcom"),
    ("CB", "NTVIC / VAP"),
    ("CC", "Use Co.,Ltd."),
    ("CD", "Meldac"),
    ("CE", "Pony Canyon / FCI"),
    ("CF", "Angel / Sotsu Agency / Sunrise"),
    ("CG", "Yumedia / Aroma Co., Ltd"),
    ("CJ", "Boss"),
    ("CK", "Axela / Crea-Tech"),
    ("CL", "Sekaibunka-Sha / Sumire Kobo / Marigul Management Inc."),
    ("CM", "Konami Computer Entertainment Osaka"),
    ("CN", "NEC Interchannel"),
    ("CP", "Enterbrain"),
    ("CQ", "From Software"),
    ("D0", "Taito / Disco"),
    ("D1", "Sofel"),
    ("D2", "Quest / Bothtec"),
    ("D3", "Sigma"),
    ("D4", "Ask Kodansha"),
    ("D6", "Naxat"),
    ("D7", "Copya System"),
    ("D8", "Capcom Co., Ltd."),
    ("D9", "Banpresto"),
    ("DA", "Tomy"),
    ("DB", "LJN Japan"),
    ("DD", "NCS"),
    ("DE", "Human Entertainment"),
    ("DF", "Altron"),
    ("DG", "Jaleco"),
    ("DH", "Gaps Inc."),
    ("DN", "Elf"),
    ("DQ", "Compile Heart"),
    ("E0", "Jaleco"),
    ("E2", "Yutaka"),
    ("E3", "Varie"),
    ("E4", "T&ESoft"),
    ("E5", "Epoch"),
    ("E7", "Athena"),
    ("E8", "Asmik"),
    ("E9", "Natsume"),
    ("EA", "King Records"),
    ("EB", "Atlus"),
    ("EC", "Epic / Sony Records"),
    ("EE", "IGS (Information Global Service)"),
    ("EG", "Chatnoir"),
    ("EH", "Right Stuff"),
    ("EL", "Spike"),
    ("EM", "Konami Computer Entertainment Tokyo"),
    ("EN", "Alphadream Corporation"),
    ("EP", "Sting"),
    ("ES", "Star-Fish"),
    ("F0", "A Wave"),
    ("F1", "Motown Software"),
    ("F2", "Left Field Entertainment"),
    ("F3", "Extreme Ent. Grp."),
    ("F4", "TecMagik"),
    ("F9", "Cybersoft"),
    ("FB", "Psygnosis"),
    ("FE", "Davidson / Western Tech."),
    ("FK", "The Game Factory"),
    ("FL", "Hip Games"),
    ("FM", "Aspyr"),
    ("FP", "Mastiff"),
    ("FQ", "iQue"),
    ("FR", "Digital Tainment Pool"),
    ("FS", "XS Games / Jack Of All Games"),
    ("FT", "Daiwon"),
    ("G0", "Alpha Unit"),
    ("G1", "PCCW Japan"),
    ("G2", "Yuke's Media Creations"),
    ("G4", "KiKi Co Ltd"),
    ("G5", "Open Sesame Inc"),
    ("G6", "Sims"),
    ("G7", "Broccoli"),
    ("G8", "Avex"),
    ("G9", "D3 Publisher"),
    ("GB", "Konami Computer Entertainment Japan"),
    ("GD", "Square-Enix"),
    ("GE", "KSG"),
    ("GF", "Micott & Basara Inc."),
    ("GH", "Orbital Media"),
    ("GJ", "Detn8 Games"),
    ("GL", "Gameloft / Ubi Soft"),
    ("GM", "Gamecock Media Group"),
    ("GN", "Oxygen Games"),
    ("GT", "505 Games"),
    ("GY", "The Game Factory"),
    ("H1", "Treasure"),
    ("H2", "Aruze"),
    ("H3", "Ertain"),
    ("H4", "SNK Playmore"),
    ("HJ", "Genius Products"),
    ("HY", "Reef Entertainment"),
    ("HZ", "Nordcurrent"),
    ("IH", "Yojigen"),
    ("J9", "AQ Interactive"),
    ("JF", "Arc System Works"),
    ("JW", "Atari"),
    ("K6", "Nihon System"),
    ("KB", "NIS America"),
    ("KM", "Deep Silver"),
    ("LH", "Trend Verlag / East Entertainment"),
    ("LT", "Legacy Interactive"),
    ("MJ", "Mumbo Jumbo"),
    ("MR", "Mindscape"),
    ("MS", "Milestone / UFO Interactive"),
    ("MT", "Blast !"),
    ("N9", "Terabox"),
    ("NK", "Neko Entertainment / Diffusion / Naps team"),
    ("NP", "Nobilis"),
    ("NR", "Data Design / Destineer Studios"),
    ("PL", "Playlogic"),
    ("RM", "Rondomedia"),
    ("RS", "Warner Bros. Interactive Entertainment Inc."),
    ("RT", "RTL Games"),
    ("RW", "RealNetworks"),
    ("S5", "Southpeak Interactive"),
    ("SP", "Blade Interactive Studios"),
    ("SV", "SevenGames"),
    ("TK", "Tasuke / Works"),
    ("UG", "Metro 3D / Data Design"),
    ("VN", "Valcon Games"),
    ("VP", "Virgin Play"),
    ("WR", "Warner Bros. Interactive Entertainment Inc."),
    ("XJ", "Xseed Games"),
    ("XS", "Aksys Games"),
];

/// The table of maker codes and names, as a sequence.
pub open spec fn maker_table() -> Seq<(&'static str, &'static str)> {
    MAKER_TABLE@
}


/// The name of the first maker of `t` whose code equals `code` ignoring ASCII case.
pub open spec fn first_maker(t: Seq<(&'static str, &'static str)>, code: Seq<char>) -> Option<&'static str>
    decreases t.len(),
{
    if t.len() == 0 {
        None
    } else if eq_ignore_ascii_case(t[0].0@, code) {
        Some(t[0].1)
    } else {
        first_maker(t.drop_first(), code)
    }
}

/// The name of the maker of code `maker` (ignoring ASCII case), or "Unknown".
pub fn maker_name(maker: &str) -> (name: &'static str)
    ensures
        name == match first_maker(maker_table(), maker@) {
            Some(n) => n,
            None => "Unknown",
        },
{
    let t = &MAKER_TABLE;
    let m = chars_of(maker);
    let n = t.len();
    let mut i: usize = 0;
    assert(t@.subrange(0, n as int) =~= t@);
    while i < n
        invariant
            i <= n,
            n == t@.len(),
            t@ == maker_table(),
            m@ == maker@,
            first_maker(t@, maker@) == first_maker(t@.subrange(i as int, n as int), maker@),
        decreases n - i,
    {
        let (code, name) = t[i];
        let c = chars_of(code);
        let ok = chars_eq_ignore_case(c.as_slice(), m.as_slice());
        proof {
            assert(t@.subrange(i as int, n as int)[0] == (code, name));
            assert(t@.subrange(i as int, n as int).drop_first() =~= t@.subrange(i + 1, n as int));
        }
        if ok {
            return name;
        }
        i = i + 1;
    }
    assert(t@.subrange(n as int, n as int).len() == 0);
    "Unknown"
}

/// The name of the ISO image written by an automatic dump: the title
/// without leading and trailing white space, then `.iso`.
pub fn iso_name(title: &str) -> (s: String)
    ensures
        s@ == crate::text::trim_ws(title@) + ".iso"@,
{
    let v = crate::text::chars_of(title);
    let t = crate::text::trim_chars(v.as_slice());
    let mut s = crate::text::string_of(t.as_slice());
    s.append(".iso");
    s
}

} // verus!
