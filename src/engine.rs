//! The mutation engine: picks a test case from the corpus, applies randomly
//! chosen mutators to it, and hands the result out.
use vstd::prelude::*;
use std::sync::Arc;
use crate::error::Error;
use crate::grammar::{Grammar, TokenIdentifier};
use crate::mutators;
use crate::ni::ni_mutate;
use crate::generators::Xorshift64;
use crate::prng::{Generator, Generators, Rng};
use crate::test_case::TestCase;

verus! {

/// The byte-level mutators.
#[derive(Debug, Clone, Copy, PartialEq, Eq, Structural)]
pub enum StandardMutators {
    ShuffleBytes,
    EraseBytes,
    InsertBytes,
    SwapNeighbors,
    SwapEndianness,
    ChangeBit,
    ChangeByte,
    NegateByte,
    ArithmeticWidth,
    CopyPart,
    ChangeASCIIInteger,
    ChangeBinaryInteger,
    CrossOver,
    Splice,
    Truncate,
    Append,
    AddFromMagic,
    AddWordFromDict,
    AddWordFromTORC,
    Ni,
    GrammarGenerator,
}

/// A built-in grammar, by family and format, or a grammar file of the user's.
#[derive(Debug, Clone, PartialEq, Eq)]
pub enum GrammarTemplate {
    DataFormat(DataFormat),
    ImageFormat(ImageFormat),
    ArchiveFormat(ArchiveFormat),
    NetworkProtocol(NetworkProtocol),
    Multimedia(Multimedia),
    Document(Document),
    Font(Font),
    BinaryFormat(BinaryFormat),
    Book(Book),
    Custom(String),
}

#[derive(Debug, Clone, Copy, PartialEq, Eq, Structural)]
pub enum DataFormat {
    Json,
    Html,
    Xml,
    Csv,
    Ini,
    Yaml,
    SqlQueries,
    Jwt,
    Toml,
    Markdown,
    GeoJson,
    Rtf,
    Bson,
    Bash,
    Css,
    Lua,
    Ruby,
    Php,
    Javascript,
    Python,
    Perl,
}

#[derive(Debug, Clone, Copy, PartialEq, Eq, Structural)]
pub enum Font {
    Ttf,
    Woff,
}

#[derive(Debug, Clone, Copy, PartialEq, Eq, Structural)]
pub enum Book {
    Epub,
}

#[derive(Debug, Clone, Copy, PartialEq, Eq, Structural)]
pub enum ImageFormat {
    Jpg,
    Png,
    Gif,
    Bmp,
    WebP,
    Ico,
    Svg,
    Jpeg2000,
    Tiff,
}

#[derive(Debug, Clone, Copy, PartialEq, Eq, Structural)]
pub enum ArchiveFormat {
    Zip,
    Tar,
    Rar,
    Cpio,
    Cab,
    Gzip,
    Lzma,
    Bzip2,
    Lzo,
}

#[derive(Debug, Clone, Copy, PartialEq, Eq, Structural)]
pub enum NetworkProtocol {
    Dns,
    Dhcp,
    Ntp,
    Smtp,
    Ftp,
}

#[derive(Debug, Clone, Copy, PartialEq, Eq, Structural)]
pub enum Multimedia {
    Midi,
    Mp3,
    Wav,
    Mp4,
    Avi,
    Mov,
}

#[derive(Debug, Clone, Copy, PartialEq, Eq, Structural)]
pub enum Document {
    Pdf,
    PostScript,
    Eps,
}

#[derive(Debug, Clone, Copy, PartialEq, Eq, Structural)]
pub enum BinaryFormat {
    SqliteDB,
    MsgPack,
    Pcap,
    Pe,
    Elf,
    Ebpf,
}

/// The file of a template's grammar: `grammars/<name>.json` for a built-in one,
/// the given path for a custom one.
pub open spec fn template_path(t: GrammarTemplate) -> Seq<char> {
    match t {
        GrammarTemplate::DataFormat(f) => match f {
            DataFormat::Json => "grammars/json.json"@,
            DataFormat::Html => "grammars/html.json"@,
            DataFormat::Xml => "grammars/xml.json"@,
            DataFormat::Csv => "grammars/csv.json"@,
            DataFormat::Ini => "grammars/ini.json"@,
            DataFormat::Yaml => "grammars/yaml.json"@,
            DataFormat::SqlQueries => "grammars/sql_queries.json"@,
            DataFormat::Jwt => "grammars/jwt.json"@,
            DataFormat::Markdown => "grammars/markdown.json"@,
            DataFormat::GeoJson => "grammars/geojson.json"@,
            DataFormat::Rtf => "grammars/rtf.json"@,
            DataFormat::Bson => "grammars/bson.json"@,
            DataFormat::Toml => "grammars/toml.json"@,
            DataFormat::Bash => "grammars/bash.json"@,
            DataFormat::Css => "grammars/css.json"@,
            DataFormat::Lua => "grammars/lua.json"@,
            DataFormat::Ruby => "grammars/ruby.json"@,
            DataFormat::Php => "grammars/php.json"@,
            DataFormat::Javascript => "grammars/javascript.json"@,
            DataFormat::Python => "grammars/python.json"@,
            DataFormat::Perl => "grammars/perl.json"@,
        },
        GrammarTemplate::ImageFormat(f) => match f {
            ImageFormat::Jpg => "grammars/jpg.json"@,
            ImageFormat::Png => "grammars/png.json"@,
            ImageFormat::Gif => "grammars/gif.json"@,
            ImageFormat::Bmp => "grammars/bmp.json"@,
            ImageFormat::WebP => "grammars/webp.json"@,
            ImageFormat::Ico => "grammars/ico.json"@,
            ImageFormat::Jpeg2000 => "grammars/jpeg2000.json"@,
            ImageFormat::Svg => "grammars/svg.json"@,
            ImageFormat::Tiff => "grammars/tiff.json"@,
        },
        GrammarTemplate::ArchiveFormat(f) => match f {
            ArchiveFormat::Zip => "grammars/zip.json"@,
            ArchiveFormat::Tar => "grammars/tar.json"@,
            ArchiveFormat::Rar => "grammars/rar.json"@,
            ArchiveFormat::Cpio => "grammars/cpio.json"@,
            ArchiveFormat::Cab => "grammars/cab.json"@,
            ArchiveFormat::Gzip => "grammars/gzip.json"@,
            ArchiveFormat::Lzma => "grammars/lzma.json"@,
            ArchiveFormat::Bzip2 => "grammars/bzip2.json"@,
            ArchiveFormat::Lzo => "grammars/lzo.json"@,
        },
        GrammarTemplate::NetworkProtocol(f) => match f {
            NetworkProtocol::Dns => "grammars/dns.json"@,
            NetworkProtocol::Dhcp => "grammars/dhcp.json"@,
            NetworkProtocol::Ntp => "grammars/ntp.json"@,
            NetworkProtocol::Smtp => "grammars/smtp.json"@,
            NetworkProtocol::Ftp => "grammars/ftp.json"@,
        },
        GrammarTemplate::Multimedia(f) => match f {
            Multimedia::Midi => "grammars/midi.json"@,
            Multimedia::Mp3 => "grammars/mp3.json"@,
            Multimedia::Wav => "grammars/wav.json"@,
            Multimedia::Mp4 => "grammars/mp4.json"@,
            Multimedia::Avi => "grammars/avi.json"@,
            Multimedia::Mov => "grammars/mov.json"@,
        },
        GrammarTemplate::Document(f) => match f {
            Document::Pdf => "grammars/pdf.json"@,
            Document::PostScript => "grammars/postscript.json"@,
            Document::Eps => "grammars/eps.json"@,
        },
        GrammarTemplate::BinaryFormat(f) => match f {
            BinaryFormat::Elf => "grammars/elf.json"@,
            BinaryFormat::Pe => "grammars/pe.json"@,
            BinaryFormat::Pcap => "grammars/pcap.json"@,
            BinaryFormat::Ebpf => "grammars/ebpf.json"@,
            BinaryFormat::MsgPack => "grammars/msgpack.json"@,
            BinaryFormat::SqliteDB => "grammars/sqlite_db.json"@,
        },
        GrammarTemplate::Font(f) => match f {
            Font::Ttf => "grammars/ttf.json"@,
            Font::Woff => "grammars/woff.json"@,
        },
        GrammarTemplate::Book(f) => match f {
            Book::Epub => "grammars/epub.json"@,
        },
        GrammarTemplate::Custom(p) => p@,
    }
}

/// The built-in template that a name selects, if any.
pub open spec fn template_named(name: Seq<char>) -> Option<GrammarTemplate> {
    if name == "json"@ {
        Some(GrammarTemplate::DataFormat(DataFormat::Json))
    } else if name == "html"@ {
        Some(GrammarTemplate::DataFormat(DataFormat::Html))
    } else if name == "xml"@ {
        Some(GrammarTemplate::DataFormat(DataFormat::Xml))
    } else if name == "csv"@ {
        Some(GrammarTemplate::DataFormat(DataFormat::Csv))
    } else if name == "ini"@ {
        Some(GrammarTemplate::DataFormat(DataFormat::Ini))
    } else if name == "yaml"@ {
        Some(GrammarTemplate::DataFormat(DataFormat::Yaml))
    } else if name == "sql_queries"@ {
        Some(GrammarTemplate::DataFormat(DataFormat::SqlQueries))
    } else if name == "jwt"@ {
        Some(GrammarTemplate::DataFormat(DataFormat::Jwt))
    } else if name == "markdown"@ {
        Some(GrammarTemplate::DataFormat(DataFormat::Markdown))
    } else if name == "geojson"@ {
        Some(GrammarTemplate::DataFormat(DataFormat::GeoJson))
    } else if name == "rtf"@ {
        Some(GrammarTemplate::DataFormat(DataFormat::Rtf))
    } else if name == "bson"@ {
        Some(GrammarTemplate::DataFormat(DataFormat::Bson))
    } else if name == "toml"@ {
        Some(GrammarTemplate::DataFormat(DataFormat::Toml))
    } else if name == "bash"@ {
        Some(GrammarTemplate::DataFormat(DataFormat::Bash))
    } else if name == "css"@ {
        Some(GrammarTemplate::DataFormat(DataFormat::Css))
    } else if name == "lua"@ {
        Some(GrammarTemplate::DataFormat(DataFormat::Lua))
    } else if name == "ruby"@ {
        Some(GrammarTemplate::DataFormat(DataFormat::Ruby))
    } else if name == "php"@ {
        Some(GrammarTemplate::DataFormat(DataFormat::Php))
    } else if name == "javascript"@ {
        Some(GrammarTemplate::DataFormat(DataFormat::Javascript))
    } else if name == "python"@ {
        Some(GrammarTemplate::DataFormat(DataFormat::Python))
    } else if name == "perl"@ {
        Some(GrammarTemplate::DataFormat(DataFormat::Perl))
    } else if name == "jpg"@ {
        Some(GrammarTemplate::ImageFormat(ImageFormat::Jpg))
    } else if name == "png"@ {
        Some(GrammarTemplate::ImageFormat(ImageFormat::Png))
    } else if name == "gif"@ {
        Some(GrammarTemplate::ImageFormat(ImageFormat::Gif))
    } else if name == "bmp"@ {
        Some(GrammarTemplate::ImageFormat(ImageFormat::Bmp))
    } else if name == "webp"@ {
        Some(GrammarTemplate::ImageFormat(ImageFormat::WebP))
    } else if name == "ico"@ {
        Some(GrammarTemplate::ImageFormat(ImageFormat::Ico))
    } else if name == "jpeg2000"@ {
        Some(GrammarTemplate::ImageFormat(ImageFormat::Jpeg2000))
    } else if name == "svg"@ {
        Some(GrammarTemplate::ImageFormat(ImageFormat::Svg))
    } else if name == "tiff"@ {
        Some(GrammarTemplate::ImageFormat(ImageFormat::Tiff))
    } else if name == "zip"@ {
        Some(GrammarTemplate::ArchiveFormat(ArchiveFormat::Zip))
    } else if name == "tar"@ {
        Some(GrammarTemplate::ArchiveFormat(ArchiveFormat::Tar))
    } else if name == "rar"@ {
        Some(GrammarTemplate::ArchiveFormat(ArchiveFormat::Rar))
    } else if name == "cpio"@ {
        Some(GrammarTemplate::ArchiveFormat(ArchiveFormat::Cpio))
    } else if name == "cab"@ {
        Some(GrammarTemplate::ArchiveFormat(ArchiveFormat::Cab))
    } else if name == "gzip"@ {
        Some(GrammarTemplate::ArchiveFormat(ArchiveFormat::Gzip))
    } else if name == "lzma"@ {
        Some(GrammarTemplate::ArchiveFormat(ArchiveFormat::Lzma))
    } else if name == "bzip2"@ {
        Some(GrammarTemplate::ArchiveFormat(ArchiveFormat::Bzip2))
    } else if name == "lzo"@ {
        Some(GrammarTemplate::ArchiveFormat(ArchiveFormat::Lzo))
    } else if name == "dns"@ {
        Some(GrammarTemplate::NetworkProtocol(NetworkProtocol::Dns))
    } else if name == "dhcp"@ {
        Some(GrammarTemplate::NetworkProtocol(NetworkProtocol::Dhcp))
    } else if name == "ntp"@ {
        Some(GrammarTemplate::NetworkProtocol(NetworkProtocol::Ntp))
    } else if name == "smtp"@ {
        Some(GrammarTemplate::NetworkProtocol(NetworkProtocol::Smtp))
    } else if name == "ftp"@ {
        Some(GrammarTemplate::NetworkProtocol(NetworkProtocol::Ftp))
    } else if name == "midi"@ {
        Some(GrammarTemplate::Multimedia(Multimedia::Midi))
    } else if name == "mp3"@ {
        Some(GrammarTemplate::Multimedia(Multimedia::Mp3))
    } else if name == "wav"@ {
        Some(GrammarTemplate::Multimedia(Multimedia::Wav))
    } else if name == "mp4"@ {
        Some(GrammarTemplate::Multimedia(Multimedia::Mp4))
    } else if name == "avi"@ {
        Some(GrammarTemplate::Multimedia(Multimedia::Avi))
    } else if name == "mov"@ {
        Some(GrammarTemplate::Multimedia(Multimedia::Mov))
    } else if name == "pdf"@ {
        Some(GrammarTemplate::Document(Document::Pdf))
    } else if name == "postscript"@ {
        Some(GrammarTemplate::Document(Document::PostScript))
    } else if name == "eps"@ {
        Some(GrammarTemplate::Document(Document::Eps))
    } else if name == "elf"@ {
        Some(GrammarTemplate::BinaryFormat(BinaryFormat::Elf))
    } else if name == "pe"@ {
        Some(GrammarTemplate::BinaryFormat(BinaryFormat::Pe))
    } else if name == "pcap"@ {
        Some(GrammarTemplate::BinaryFormat(BinaryFormat::Pcap))
    } else if name == "ebpf"@ {
        Some(GrammarTemplate::BinaryFormat(BinaryFormat::Ebpf))
    } else if name == "msgpack"@ {
        Some(GrammarTemplate::BinaryFormat(BinaryFormat::MsgPack))
    } else if name == "sqlitedb"@ || name == "sqlite_db"@ {
        Some(GrammarTemplate::BinaryFormat(BinaryFormat::SqliteDB))
    } else if name == "ttf"@ {
        Some(GrammarTemplate::Font(Font::Ttf))
    } else if name == "woff"@ {
        Some(GrammarTemplate::Font(Font::Woff))
    } else if name == "epub"@ {
        Some(GrammarTemplate::Book(Book::Epub))
    } else {
        None
    }
}

impl GrammarTemplate {
    /// The grammar file, relative to the directory of built-in grammars for a
    /// built-in template, as given for a custom one.
    pub fn get_path(&self) -> (r: String)
        ensures
            r@ == template_path(*self),
    {
        match self {
            GrammarTemplate::DataFormat(f) => match f {
                DataFormat::Json => String::from_str("grammars/json.json"),
                DataFormat::Html => String::from_str("grammars/html.json"),
                DataFormat::Xml => String::from_str("grammars/xml.json"),
                DataFormat::Csv => String::from_str("grammars/csv.json"),
                DataFormat::Ini => String::from_str("grammars/ini.json"),
                DataFormat::Yaml => String::from_str("grammars/yaml.json"),
                DataFormat::SqlQueries => String::from_str("grammars/sql_queries.json"),
                DataFormat::Jwt => String::from_str("grammars/jwt.json"),
                DataFormat::Markdown => String::from_str("grammars/markdown.json"),
                DataFormat::GeoJson => String::from_str("grammars/geojson.json"),
                DataFormat::Rtf => String::from_str("grammars/rtf.json"),
                DataFormat::Bson => String::from_str("grammars/bson.json"),
                DataFormat::Toml => String::from_str("grammars/toml.json"),
                DataFormat::Bash => String::from_str("grammars/bash.json"),
                DataFormat::Css => String::from_str("grammars/css.json"),
                DataFormat::Lua => String::from_str("grammars/lua.json"),
                DataFormat::Ruby => String::from_str("grammars/ruby.json"),
                DataFormat::Php => String::from_str("grammars/php.json"),
                DataFormat::Javascript => String::from_str("grammars/javascript.json"),
                DataFormat::Python => String::from_str("grammars/python.json"),
                DataFormat::Perl => String::from_str("grammars/perl.json"),
            },
            GrammarTemplate::ImageFormat(f) => match f {
                ImageFormat::Jpg => String::from_str("grammars/jpg.json"),
                ImageFormat::Png => String::from_str("grammars/png.json"),
                ImageFormat::Gif => String::from_str("grammars/gif.json"),
                ImageFormat::Bmp => String::from_str("grammars/bmp.json"),
                ImageFormat::WebP => String::from_str("grammars/webp.json"),
                ImageFormat::Ico => String::from_str("grammars/ico.json"),
                ImageFormat::Jpeg2000 => String::from_str("grammars/jpeg2000.json"),
                ImageFormat::Svg => String::from_str("grammars/svg.json"),
                ImageFormat::Tiff => String::from_str("grammars/tiff.json"),
            },
            GrammarTemplate::ArchiveFormat(f) => match f {
                ArchiveFormat::Zip => String::from_str("grammars/zip.json"),
                ArchiveFormat::Tar => String::from_str("grammars/tar.json"),
                ArchiveFormat::Rar => String::from_str("grammars/rar.json"),
                ArchiveFormat::Cpio => String::from_str("grammars/cpio.json"),
                ArchiveFormat::Cab => String::from_str("grammars/cab.json"),
                ArchiveFormat::Gzip => String::from_str("grammars/gzip.json"),
                ArchiveFormat::Lzma => String::from_str("grammars/lzma.json"),
                ArchiveFormat::Bzip2 => String::from_str("grammars/bzip2.json"),
                ArchiveFormat::Lzo => String::from_str("grammars/lzo.json"),
            },
            GrammarTemplate::NetworkProtocol(f) => match f {
                NetworkProtocol::Dns => String::from_str("grammars/dns.json"),
                NetworkProtocol::Dhcp => String::from_str("grammars/dhcp.json"),
                NetworkProtocol::Ntp => String::from_str("grammars/ntp.json"),
                NetworkProtocol::Smtp => String::from_str("grammars/smtp.json"),
                NetworkProtocol::Ftp => String::from_str("grammars/ftp.json"),
            },
            GrammarTemplate::Multimedia(f) => match f {
                Multimedia::Midi => String::from_str("grammars/midi.json"),
                Multimedia::Mp3 => String::from_str("grammars/mp3.json"),
                Multimedia::Wav => String::from_str("grammars/wav.json"),
                Multimedia::Mp4 => String::from_str("grammars/mp4.json"),
                Multimedia::Avi => String::from_str("grammars/avi.json"),
                Multimedia::Mov => String::from_str("grammars/mov.json"),
            },
            GrammarTemplate::Document(f) => match f {
                Document::Pdf => String::from_str("grammars/pdf.json"),
                Document::PostScript => String::from_str("grammars/postscript.json"),
                Document::Eps => String::from_str("grammars/eps.json"),
            },
            GrammarTemplate::BinaryFormat(f) => match f {
                BinaryFormat::Elf => String::from_str("grammars/elf.json"),
                BinaryFormat::Pe => String::from_str("grammars/pe.json"),
                BinaryFormat::Pcap => String::from_str("grammars/pcap.json"),
                BinaryFormat::Ebpf => String::from_str("grammars/ebpf.json"),
                BinaryFormat::MsgPack => String::from_str("grammars/msgpack.json"),
                BinaryFormat::SqliteDB => String::from_str("grammars/sqlite_db.json"),
            },
            GrammarTemplate::Font(f) => match f {
                Font::Ttf => String::from_str("grammars/ttf.json"),
                Font::Woff => String::from_str("grammars/woff.json"),
            },
            GrammarTemplate::Book(f) => match f {
                Book::Epub => String::from_str("grammars/epub.json"),
            },
            GrammarTemplate::Custom(path) => path.clone(),
        }
    }

    /// The template that a name selects: a built-in one by its name, else a
    /// custom grammar at the path `name`.
    pub fn from_name(name: &str) -> (r: GrammarTemplate)
        ensures
            template_named(name@) matches Some(t) ==> r == t,
            template_named(name@) is None ==> r is Custom && r->Custom_0@ == name@,
    {
        let n = String::from_str(name);
        if n == String::from_str("json") {
            GrammarTemplate::DataFormat(DataFormat::Json)
        } else if n == String::from_str("html") {
            GrammarTemplate::DataFormat(DataFormat::Html)
        } else if n == String::from_str("xml") {
            GrammarTemplate::DataFormat(DataFormat::Xml)
        } else if n == String::from_str("csv") {
            GrammarTemplate::DataFormat(DataFormat::Csv)
        } else if n == String::from_str("ini") {
            GrammarTemplate::DataFormat(DataFormat::Ini)
        } else if n == String::from_str("yaml") {
            GrammarTemplate::DataFormat(DataFormat::Yaml)
        } else if n == String::from_str("sql_queries") {
            GrammarTemplate::DataFormat(DataFormat::SqlQueries)
        } else if n == String::from_str("jwt") {
            GrammarTemplate::DataFormat(DataFormat::Jwt)
        } else if n == String::from_str("markdown") {
            GrammarTemplate::DataFormat(DataFormat::Markdown)
        } else if n == String::from_str("geojson") {
            GrammarTemplate::DataFormat(DataFormat::GeoJson)
        } else if n == String::from_str("rtf") {
            GrammarTemplate::DataFormat(DataFormat::Rtf)
        } else if n == String::from_str("bson") {
            GrammarTemplate::DataFormat(DataFormat::Bson)
        } else if n == String::from_str("toml") {
            GrammarTemplate::DataFormat(DataFormat::Toml)
        } else if n == String::from_str("bash") {
            GrammarTemplate::DataFormat(DataFormat::Bash)
        } else if n == String::from_str("css") {
            GrammarTemplate::DataFormat(DataFormat::Css)
        } else if n == String::from_str("lua") {
            GrammarTemplate::DataFormat(DataFormat::Lua)
        } else if n == String::from_str("ruby") {
            GrammarTemplate::DataFormat(DataFormat::Ruby)
        } else if n == String::from_str("php") {
            GrammarTemplate::DataFormat(DataFormat::Php)
        } else if n == String::from_str("javascript") {
            GrammarTemplate::DataFormat(DataFormat::Javascript)
        } else if n == String::from_str("python") {
            GrammarTemplate::DataFormat(DataFormat::Python)
        } else if n == String::from_str("perl") {
            GrammarTemplate::DataFormat(DataFormat::Perl)
        } else if n == String::from_str("jpg") {
            GrammarTemplate::ImageFormat(ImageFormat::Jpg)
        } else if n == String::from_str("png") {
            GrammarTemplate::ImageFormat(ImageFormat::Png)
        } else if n == String::from_str("gif") {
            GrammarTemplate::ImageFormat(ImageFormat::Gif)
        } else if n == String::from_str("bmp") {
            GrammarTemplate::ImageFormat(ImageFormat::Bmp)
        } else if n == String::from_str("webp") {
            GrammarTemplate::ImageFormat(ImageFormat::WebP)
        } else if n == String::from_str("ico") {
            GrammarTemplate::ImageFormat(ImageFormat::Ico)
        } else if n == String::from_str("jpeg2000") {
            GrammarTemplate::ImageFormat(ImageFormat::Jpeg2000)
        } else if n == String::from_str("svg") {
            GrammarTemplate::ImageFormat(ImageFormat::Svg)
        } else if n == String::from_str("tiff") {
            GrammarTemplate::ImageFormat(ImageFormat::Tiff)
        } else if n == String::from_str("zip") {
            GrammarTemplate::ArchiveFormat(ArchiveFormat::Zip)
        } else if n == String::from_str("tar") {
            GrammarTemplate::ArchiveFormat(ArchiveFormat::Tar)
        } else if n == String::from_str("rar") {
            GrammarTemplate::ArchiveFormat(ArchiveFormat::Rar)
        } else if n == String::from_str("cpio") {
            GrammarTemplate::ArchiveFormat(ArchiveFormat::Cpio)
        } else if n == String::from_str("cab") {
            GrammarTemplate::ArchiveFormat(ArchiveFormat::Cab)
        } else if n == String::from_str("gzip") {
            GrammarTemplate::ArchiveFormat(ArchiveFormat::Gzip)
        } else if n == String::from_str("lzma") {
            GrammarTemplate::ArchiveFormat(ArchiveFormat::Lzma)
        } else if n == String::from_str("bzip2") {
            GrammarTemplate::ArchiveFormat(ArchiveFormat::Bzip2)
        } else if n == String::from_str("lzo") {
            GrammarTemplate::ArchiveFormat(ArchiveFormat::Lzo)
        } else if n == String::from_str("dns") {
            GrammarTemplate::NetworkProtocol(NetworkProtocol::Dns)
        } else if n == String::from_str("dhcp") {
            GrammarTemplate::NetworkProtocol(NetworkProtocol::Dhcp)
        } else if n == String::from_str("ntp") {
            GrammarTemplate::NetworkProtocol(NetworkProtocol::Ntp)
        } else if n == String::from_str("smtp") {
            GrammarTemplate::NetworkProtocol(NetworkProtocol::Smtp)
        } else if n == String::from_str("ftp") {
            GrammarTemplate::NetworkProtocol(NetworkProtocol::Ftp)
        } else if n == String::from_str("midi") {
            GrammarTemplate::Multimedia(Multimedia::Midi)
        } else if n == String::from_str("mp3") {
            GrammarTemplate::Multimedia(Multimedia::Mp3)
        } else if n == String::from_str("wav") {
            GrammarTemplate::Multimedia(Multimedia::Wav)
        } else if n == String::from_str("mp4") {
            GrammarTemplate::Multimedia(Multimedia::Mp4)
        } else if n == String::from_str("avi") {
            GrammarTemplate::Multimedia(Multimedia::Avi)
        } else if n == String::from_str("mov") {
            GrammarTemplate::Multimedia(Multimedia::Mov)
        } else if n == String::from_str("pdf") {
            GrammarTemplate::Document(Document::Pdf)
        } else if n == String::from_str("postscript") {
            GrammarTemplate::Document(Document::PostScript)
        } else if n == String::from_str("eps") {
            GrammarTemplate::Document(Document::Eps)
        } else if n == String::from_str("elf") {
            GrammarTemplate::BinaryFormat(BinaryFormat::Elf)
        } else if n == String::from_str("pe") {
            GrammarTemplate::BinaryFormat(BinaryFormat::Pe)
        } else if n == String::from_str("pcap") {
            GrammarTemplate::BinaryFormat(BinaryFormat::Pcap)
        } else if n == String::from_str("ebpf") {
            GrammarTemplate::BinaryFormat(BinaryFormat::Ebpf)
        } else if n == String::from_str("msgpack") {
            GrammarTemplate::BinaryFormat(BinaryFormat::MsgPack)
        } else if n == String::from_str("sqlitedb") || n == String::from_str("sqlite_db") {
            GrammarTemplate::BinaryFormat(BinaryFormat::SqliteDB)
        } else if n == String::from_str("ttf") {
            GrammarTemplate::Font(Font::Ttf)
        } else if n == String::from_str("woff") {
            GrammarTemplate::Font(Font::Woff)
        } else if n == String::from_str("epub") {
            GrammarTemplate::Book(Book::Epub)
        } else {
            GrammarTemplate::Custom(n)
        }
    }
}

/// The mutators that need more than the test case: the block mutator and the
/// grammar generator.
#[derive(Debug, Clone, PartialEq, Eq)]
pub enum CustomMutators {
    Ni,
    GrammarGenerator(GrammarTemplate),
}

/// A mutator of either kind.
#[derive(Debug, Clone)]
pub enum Mutators {
    Standard(StandardMutators),
    Custom(CustomMutators),
}

/// The mutators that a new engine starts with.
pub open spec fn default_mutators() -> Seq<Mutators> {
    seq![
        Mutators::Standard(StandardMutators::ShuffleBytes),
        Mutators::Standard(StandardMutators::EraseBytes),
        Mutators::Standard(StandardMutators::InsertBytes),
        Mutators::Standard(StandardMutators::SwapNeighbors),
        Mutators::Standard(StandardMutators::SwapEndianness),
        Mutators::Standard(StandardMutators::ChangeBit),
        Mutators::Standard(StandardMutators::ChangeByte),
        Mutators::Standard(StandardMutators::NegateByte),
        Mutators::Standard(StandardMutators::ArithmeticWidth),
        Mutators::Standard(StandardMutators::CopyPart),
        Mutators::Standard(StandardMutators::ChangeASCIIInteger),
        Mutators::Standard(StandardMutators::ChangeBinaryInteger),
        Mutators::Standard(StandardMutators::CrossOver),
        Mutators::Standard(StandardMutators::Splice),
        Mutators::Standard(StandardMutators::Truncate),
        Mutators::Standard(StandardMutators::Append),
        Mutators::Standard(StandardMutators::AddFromMagic),
        Mutators::Standard(StandardMutators::AddWordFromTORC),
    ]
}

/// The mutators that `enable_custom_mutators` appends for `cm`: the block mutator
/// always, the grammar generator only when a grammar is set.
pub open spec fn enabled(cm: Seq<CustomMutators>, has_grammar: bool) -> Seq<Mutators>
    decreases cm.len(),
{
    if cm.len() == 0 {
        Seq::empty()
    } else {
        let rest = enabled(cm.drop_last(), has_grammar);
        match cm.last() {
            CustomMutators::Ni => rest.push(Mutators::Custom(CustomMutators::Ni)),
            CustomMutators::GrammarGenerator(t) => if has_grammar {
                rest.push(Mutators::Custom(CustomMutators::GrammarGenerator(t)))
            } else {
                rest
            },
        }
    }
}

/// A copy of a template.
fn copy_template(t: &GrammarTemplate) -> (r: GrammarTemplate)
    ensures
        r == *t,
{
    match t {
        GrammarTemplate::DataFormat(f) => GrammarTemplate::DataFormat(*f),
        GrammarTemplate::ImageFormat(f) => GrammarTemplate::ImageFormat(*f),
        GrammarTemplate::ArchiveFormat(f) => GrammarTemplate::ArchiveFormat(*f),
        GrammarTemplate::NetworkProtocol(f) => GrammarTemplate::NetworkProtocol(*f),
        GrammarTemplate::Multimedia(f) => GrammarTemplate::Multimedia(*f),
        GrammarTemplate::Document(f) => GrammarTemplate::Document(*f),
        GrammarTemplate::Font(f) => GrammarTemplate::Font(*f),
        GrammarTemplate::BinaryFormat(f) => GrammarTemplate::BinaryFormat(*f),
        GrammarTemplate::Book(f) => GrammarTemplate::Book(*f),
        GrammarTemplate::Custom(p) => GrammarTemplate::Custom(p.clone()),
    }
}

/// The engine's state: its mutators, randomness, dictionaries, corpus and the
/// test case being mutated.
pub struct MutationEngine {
    /// The mutators that `mutate` picks from.
    pub mutators: Vec<Mutators>,
    /// The compiled grammar of the grammar generator, once one is set.
    pub grammar: Option<Grammar>,
    /// The token that the grammar generator starts from.
    pub grammar_start: TokenIdentifier,
    /// The largest share of the test case, in percent, that one pass rewrites.
    pub max_mutation_factor: usize,
    pub prng: Rng,
    /// Keep inserted bytes printable.
    pub printable: bool,
    pub user_token_dict: Vec<Vec<u8>>,
    /// Mutators applied per call of `mutate`.
    pub mutation_passes: usize,
    /// Dictionary of recent comparisons: reserved for feedback, never filled.
    pub torc_token_dict: Vec<Vec<u8>>,
    pub test_case: TestCase,
    pub corpus: Arc<Vec<Vec<u8>>>,
}

impl MutationEngine {
    /// The test case is well formed, the factor is a percentage in `[1, 99]`, and a
    /// grammar, when there is one, is well formed with its start token set.
    pub open spec fn wf(&self) -> bool {
        &&& self.test_case.wf()
        &&& 1 <= self.max_mutation_factor <= 99
        &&& self.grammar matches Some(g) ==> g.wf() && g.start is Some && self.grammar_start.0
            < g.tokens@.len()
    }

    /// `self` and `o` differ at most in their test case and generator state.
    pub open spec fn same_setup(&self, o: &MutationEngine) -> bool {
        &&& self.mutators@ == o.mutators@
        &&& self.grammar == o.grammar
        &&& self.grammar_start == o.grammar_start
        &&& self.max_mutation_factor == o.max_mutation_factor
        &&& self.printable == o.printable
        &&& self.user_token_dict@ == o.user_token_dict@
        &&& self.mutation_passes == o.mutation_passes
        &&& self.torc_token_dict@ == o.torc_token_dict@
        &&& self.corpus@ == o.corpus@
        &&& self.prng.exponential == o.prng.exponential
    }

    /// `self` and `o` agree on everything but the three scalar settings: mutation
    /// factor, printable flag and passes.
    pub open spec fn same_parts(&self, o: &MutationEngine) -> bool {
        &&& self.mutators@ == o.mutators@
        &&& self.grammar == o.grammar
        &&& self.grammar_start == o.grammar_start
        &&& self.user_token_dict@ == o.user_token_dict@
        &&& self.torc_token_dict@ == o.torc_token_dict@
        &&& self.corpus@ == o.corpus@
        &&& self.prng == o.prng
        &&& self.test_case == o.test_case
    }

    /// The test case holds `data` with the cursor at the start.
    pub open spec fn holds(&self, data: Seq<u8>) -> bool {
        &&& self.test_case.data@ == data
        &&& self.test_case.size == data.len()
    }

    /// An engine with the standard mutators, a Xorshift64 generator seeded from the
    /// clock, and a corpus of one random entry of 128 bytes.
    pub fn new() -> (r: Self)
        ensures
            r.wf(),
            r.corpus@.len() == 1,
            r.corpus@[0]@.len() == 128,
            r.max_mutation_factor == 10,
            r.mutation_passes == 1,
            !r.printable,
            r.grammar is None,
            r.mutators@ == default_mutators(),
    {
        let mutators: Vec<Mutators> = vec![
            Mutators::Standard(StandardMutators::ShuffleBytes),
            Mutators::Standard(StandardMutators::EraseBytes),
            Mutators::Standard(StandardMutators::InsertBytes),
            Mutators::Standard(StandardMutators::SwapNeighbors),
            Mutators::Standard(StandardMutators::SwapEndianness),
            Mutators::Standard(StandardMutators::ChangeBit),
            Mutators::Standard(StandardMutators::ChangeByte),
            Mutators::Standard(StandardMutators::NegateByte),
            Mutators::Standard(StandardMutators::ArithmeticWidth),
            Mutators::Standard(StandardMutators::CopyPart),
            Mutators::Standard(StandardMutators::ChangeASCIIInteger),
            Mutators::Standard(StandardMutators::ChangeBinaryInteger),
            Mutators::Standard(StandardMutators::CrossOver),
            Mutators::Standard(StandardMutators::Splice),
            Mutators::Standard(StandardMutators::Truncate),
            Mutators::Standard(StandardMutators::Append),
            Mutators::Standard(StandardMutators::AddFromMagic),
            Mutators::Standard(StandardMutators::AddWordFromTORC),
        ];
        assert(mutators@ =~= default_mutators());
        let empty: Vec<u8> = Vec::new();
        let mut me = MutationEngine {
            mutators,
            grammar: None,
            grammar_start: TokenIdentifier(0),
            max_mutation_factor: 10,
            prng: Rng::new(Generator::Xorshift64(Xorshift64::new(0))),
            printable: false,
            user_token_dict: Vec::new(),
            mutation_passes: 1,
            torc_token_dict: Vec::new(),
            test_case: TestCase::new(&empty),
            corpus: Arc::new(Vec::new()),
        };
        let initial_tc = me.prng.rand_byte_vec(128);
        me.add_to_corpus(initial_tc.as_slice());
        me
    }

    /// Reseeds the generator.
    pub fn set_generator_seed(self, seed: usize) -> (r: Self)
        requires
            self.wf(),
        ensures
            r.wf(),
            r.same_setup(&self),
            r.test_case == self.test_case,
            seed != 0 ==> r.prng.generator == self.prng.generator.reseeded(seed as u64),
    {
        let mut s = self;
        s.prng.set_seed(seed);
        s
    }

    /// Switches to a freshly seeded generator of the given kind.
    pub fn set_generator(self, kind: &Generators) -> (r: Self)
        requires
            self.wf(),
        ensures
            r.wf(),
            r.same_setup(&self),
            r.test_case == self.test_case,
            exists|b: u64| r.prng.generator == Generator::spec_of_kind(*kind, b),
    {
        let mut s = self;
        let g = kind.generator();
        s.prng = s.prng.set_generator(g);
        s
    }

    /// Replaces the corpus.
    pub fn set_corpus(self, corpus: Arc<Vec<Vec<u8>>>) -> (r: Self)
        requires
            self.wf(),
        ensures
            r.wf(),
            r.corpus@ == corpus@,
            r.test_case == self.test_case,
            r.mutators@ == self.mutators@,
            r.max_mutation_factor == self.max_mutation_factor,
    {
        let mut s = self;
        s.corpus = corpus;
        s
    }

    /// Appends an entry to the engine's own copy of the corpus; the corpus that
    /// others share is left as it is.
    pub fn add_to_corpus(&mut self, test_case: &[u8])
        requires
            old(self).wf(),
        ensures
            final(self).wf(),
            final(self).corpus@.len() == old(self).corpus@.len() + 1,
            forall|i: int|
                0 <= i < old(self).corpus@.len() ==> (#[trigger] final(self).corpus@[i])@ == old(
                    self,
                ).corpus@[i]@,
            final(self).corpus@.last()@ == test_case@,
            final(self).test_case == old(self).test_case,
            final(self).mutators@ == old(self).mutators@,
            final(self).max_mutation_factor == old(self).max_mutation_factor,
            final(self).mutation_passes == old(self).mutation_passes,
            final(self).printable == old(self).printable,
            final(self).grammar == old(self).grammar,
            final(self).prng == old(self).prng,
    {
        let n = self.corpus.len();
        let mut copy: Vec<Vec<u8>> = Vec::new();
        let mut i: usize = 0;
        while i < n
            invariant
                n == self.corpus@.len(),
                i <= n,
                copy@.len() == i,
                forall|k: int| 0 <= k < i ==> (#[trigger] copy@[k])@ == self.corpus@[k]@,
            decreases n - i,
        {
            copy.push(vstd::slice::slice_to_vec(self.corpus[i].as_slice()));
            i = i + 1;
        }
        copy.push(vstd::slice::slice_to_vec(test_case));
        self.corpus = Arc::new(copy);
    }

    /// Removes every mutator.
    pub fn clear_mutators(&mut self)
        requires
            old(self).wf(),
        ensures
            final(self).wf(),
            final(self).mutators@.len() == 0,
            final(self).test_case == old(self).test_case,
    {
        self.mutators.clear();
    }

    /// Keeps inserted bytes printable, or not.
    pub fn set_printable(self, printable: bool) -> (r: Self)
        requires
            self.wf(),
        ensures
            r.wf(),
            r.printable == printable,
            r.same_parts(&self),
            r.max_mutation_factor == self.max_mutation_factor,
            r.mutation_passes == self.mutation_passes,
    {
        let mut s = self;
        s.printable = printable;
        s
    }

    /// Sets the mutation factor; one outside `[1, 99]` becomes 10.
    pub fn set_max_mutation_size(self, num_factor: usize) -> (r: Self)
        requires
            self.wf(),
        ensures
            r.wf(),
            1 <= num_factor <= 99 ==> r.max_mutation_factor == num_factor,
            !(1 <= num_factor <= 99) ==> r.max_mutation_factor == 10,
            r.same_parts(&self),
            r.printable == self.printable,
            r.mutation_passes == self.mutation_passes,
    {
        let mut s = self;
        if num_factor == 0 || num_factor >= 100 {
            s.max_mutation_factor = 10;
        } else {
            s.max_mutation_factor = num_factor;
        }
        s
    }

    /// Sets how many mutators `mutate` applies.
    pub fn set_mutation_passes(self, rounds: usize) -> (r: Self)
        requires
            self.wf(),
        ensures
            r.wf(),
            r.mutation_passes == rounds,
            r.same_parts(&self),
            r.printable == self.printable,
            r.max_mutation_factor == self.max_mutation_factor,
    {
        let mut s = self;
        s.mutation_passes = rounds;
        s
    }

    /// Sets the user dictionary (one entry per line of its file) and enables the
    /// mutator that writes its words.
    pub fn set_token_dict(self, tokens: Vec<Vec<u8>>) -> (r: Self)
        requires
            self.wf(),
        ensures
            r.wf(),
            r.user_token_dict@ == tokens@,
            r.mutators@ == self.mutators@.push(Mutators::Standard(StandardMutators::AddWordFromDict)),
            r.test_case == self.test_case,
    {
        let mut s = self;
        s.user_token_dict = tokens;
        s.mutators.push(Mutators::Standard(StandardMutators::AddWordFromDict));
        s
    }

    /// Sets the compiled grammar of the grammar generator.
    pub fn set_grammar(self, grammar: Grammar) -> (r: Self)
        requires
            self.wf(),
            grammar.wf(),
            grammar.start is Some,
        ensures
            r.wf(),
            r.grammar == Some(grammar),
            Some(r.grammar_start) == grammar.start,
            r.test_case == self.test_case,
            r.mutators@ == self.mutators@,
    {
        let mut s = self;
        match grammar.start {
            Some(st) => s.grammar_start = st,
            None => {},
        }
        s.grammar = Some(grammar);
        s
    }

    /// Enables custom mutators: the block mutator always, the grammar generator once
    /// a grammar is set.
    pub fn enable_custom_mutators(self, cm: Vec<CustomMutators>) -> (r: Self)
        requires
            self.wf(),
        ensures
            r.wf(),
            r.test_case == self.test_case,
            r.mutators@ == self.mutators@ + enabled(cm@, self.grammar is Some),
    {
        let mut s = self;
        let mut i: usize = 0;
        while i < cm.len()
            invariant
                s.wf(),
                s.test_case == self.test_case,
                s.grammar == self.grammar,
                s.mutators@ == self.mutators@ + enabled(cm@.take(i as int), self.grammar is Some),
                i <= cm@.len(),
            decreases cm@.len() - i,
        {
            proof {
                assert(cm@.take(i + 1).drop_last() =~= cm@.take(i as int));
            }
            match &cm[i] {
                CustomMutators::Ni => {
                    s.mutators.push(Mutators::Custom(CustomMutators::Ni));
                },
                CustomMutators::GrammarGenerator(gt) => {
                    if s.grammar.is_some() {
                        s.mutators.push(
                            Mutators::Custom(CustomMutators::GrammarGenerator(copy_template(gt))),
                        );
                    }
                },
            }
            i = i + 1;
            assert(s.mutators@ =~= self.mutators@ + enabled(cm@.take(i as int), self.grammar is Some));
        }
        assert(cm@.take(cm@.len() as int) =~= cm@);
        s
    }

    /// Replaces the test case by a copy of `data`.
    pub fn set_test_case(&mut self, data: &Vec<u8>)
        requires
            old(self).wf(),
        ensures
            final(self).wf(),
            final(self).same_setup(old(self)),
            final(self).prng == old(self).prng,
            final(self).holds(data@),
            final(self).test_case.data_ptr == 0,
    {
        self.test_case = TestCase::new(data);
    }

    /// A uniformly chosen corpus entry, or 128 random bytes when the corpus is empty.
    fn get_random_corpus_entry(&mut self) -> (r: Vec<u8>)
        requires
            old(self).wf(),
        ensures
            final(self).wf(),
            final(self).same_setup(old(self)),
            final(self).test_case == old(self).test_case,
            old(self).corpus@.len() > 0 ==> exists|i: int|
                0 <= i < old(self).corpus@.len() && r@ == (#[trigger] old(self).corpus@[i])@,
            old(self).corpus@.len() == 0 ==> r@.len() == 128,
    {
        let n = self.corpus.len();
        if n > 0 {
            let idx = self.prng.rand_range(0, n);
            vstd::slice::slice_to_vec(self.corpus[idx].as_slice())
        } else {
            self.prng.rand_byte_vec(128)
        }
    }

    /// Replaces the test case by a random corpus entry.
    pub fn set_random_test_case(self) -> (r: Self)
        requires
            self.wf(),
        ensures
            r.wf(),
            r.same_setup(&self),
            r.test_case.data_ptr == 0,
            self.corpus@.len() > 0 ==> exists|i: int|
                0 <= i < self.corpus@.len() && r.test_case.data@ == (#[trigger] self.corpus@[i])@,
    {
        let mut s = self;
        let tc = s.get_random_corpus_entry();
        s.set_test_case(&tc);
        s
    }

    /// A random byte, mapped to a printable one when the engine keeps output printable.
    fn ensure_printable(&mut self) -> (r: u8)
        requires
            old(self).wf(),
        ensures
            final(self).wf(),
            final(self).same_setup(old(self)),
            final(self).test_case == old(self).test_case,
            old(self).printable ==> 32 <= r <= 126,
    {
        let b = self.prng.rand_byte();
        if self.printable {
            let p = b.wrapping_sub(32) % 95 + 32;
            p
        } else {
            b
        }
    }
    /// Sets the size to the buffer's length and keeps the cursor within it.
    fn resync(&mut self)
        ensures
            final(self).test_case.wf(),
            final(self).test_case.data@ == old(self).test_case.data@,
            final(self).mutators@ == old(self).mutators@,
            final(self).grammar == old(self).grammar,
            final(self).grammar_start == old(self).grammar_start,
            final(self).max_mutation_factor == old(self).max_mutation_factor,
            final(self).printable == old(self).printable,
            final(self).user_token_dict@ == old(self).user_token_dict@,
            final(self).mutation_passes == old(self).mutation_passes,
            final(self).torc_token_dict@ == old(self).torc_token_dict@,
            final(self).corpus@ == old(self).corpus@,
            final(self).prng == old(self).prng,
            old(self).test_case.wf() ==> final(self).test_case == old(self).test_case,
            final(self).test_case.data_ptr <= old(self).test_case.data_ptr,
    {
        self.test_case.size = self.test_case.data.len();
        if self.test_case.data_ptr > self.test_case.size {
            self.test_case.data_ptr = self.test_case.size;
        }
    }

    /// Replaces the test case by a uniformly chosen corpus entry, with the cursor at
    /// the start.
    fn set_new_test_case(&mut self)
        requires
            old(self).wf(),
            old(self).corpus@.len() > 0,
        ensures
            final(self).wf(),
            final(self).same_setup(old(self)),
            final(self).test_case.data_ptr == 0,
            exists|i: int|
                0 <= i < old(self).corpus@.len() && final(self).test_case.data@ == (
                #[trigger] old(self).corpus@[i])@,
    {
        let n = self.corpus.len();
        let idx = self.prng.rand_range(0, n);
        let chosen = vstd::slice::slice_to_vec(self.corpus[idx].as_slice());
        self.test_case.data = chosen;
        self.test_case.data_ptr = 0;
        self.test_case.size = self.test_case.data.len();
    }

    /// Applies one mutator to the test case. A mutator that fails leaves it as it is.
    pub fn apply(&mut self, m: &Mutators) -> (r: Result<(), Error>)
        requires
            old(self).wf(),
        ensures
            final(self).wf(),
            final(self).same_setup(old(self)),
            r is Err ==> final(self).test_case.data@ == old(self).test_case.data@,
            old(self).test_case.data_ptr == 0 ==> final(self).test_case.data_ptr == 0,
            ({
                let d0 = old(self).test_case.data@;
                let d1 = final(self).test_case.data@;
                &&& *m == Mutators::Standard(StandardMutators::NegateByte) ==> (d0.len() == 0 <==> r is Err)
                    && (r is Ok ==> exists|i: int| 0 <= i < d0.len() && d1 == #[trigger] d0.update(i, !d0[i]))
                &&& *m == Mutators::Standard(StandardMutators::ChangeBit) ==> (d0.len() == 0 <==> r is Err)
                    && (r is Ok ==> exists|i: int, bit: u8|
                    0 <= i < d0.len() && bit < 8 && d1 == #[trigger] d0.update(i, d0[i] ^ (1u8 << bit)))
                &&& *m == Mutators::Standard(StandardMutators::ShuffleBytes) ==> (d0.len() < 2 <==> r is Err)
                    && d1.to_multiset() == d0.to_multiset()
                &&& *m == Mutators::Standard(StandardMutators::EraseBytes) ==> (d0.len() == 0 <==> r is Err)
                    && (r is Ok ==> d1.len() < d0.len())
                &&& *m == Mutators::Standard(StandardMutators::SwapEndianness) ==> (r is Ok ==> exists|
                    idx: int,
                    w: int,
                | 2 <= w <= 8 && 0 <= idx && idx + w <= d0.len() && #[trigger] mutators::reversed_window(
                    d0,
                    d1,
                    idx,
                    w,
                ))
                &&& *m == Mutators::Standard(StandardMutators::Truncate) ==> r is Ok && d1 == d0.take(
                    d1.len() as int,
                )
                &&& *m == Mutators::Standard(StandardMutators::Append) ==> (old(self).mutation_passes
                    > d0.len() <==> r is Err) && (r is Ok ==> exists|from: int|
                    0 <= from && from + old(self).mutation_passes <= d0.len() && d1 == d0
                        + #[trigger] d0.subrange(from, from + old(self).mutation_passes))
                &&& *m == Mutators::Standard(StandardMutators::AddWordFromTORC) ==> (
                old(self).torc_token_dict@.len() == 0 ==> r is Err)
            }),
    {
        let factor = self.max_mutation_factor;
        let r = match m {
            Mutators::Standard(StandardMutators::ShuffleBytes) => mutators::shuffle_bytes(
                &mut self.test_case.data,
                &mut self.prng,
            ),
            Mutators::Standard(StandardMutators::EraseBytes) => mutators::erase_bytes(
                &mut self.test_case.data,
                factor,
                &mut self.prng,
            ),
            Mutators::Standard(StandardMutators::InsertBytes) => {
                if self.test_case.data.len() == 0 {
                    Err(Error::new("Nothing to insert into"))
                } else {
                    let b = self.ensure_printable();
                    mutators::insert_bytes(&mut self.test_case.data, b, factor, &mut self.prng)
                }
            },
            Mutators::Standard(StandardMutators::SwapNeighbors) => {
                let k = self.prng.rand_range(0, 4);
                let w: usize = if k == 0 { 1 } else if k == 1 { 2 } else if k == 2 { 4 } else { 8 };
                mutators::swap_neighbors_width(&mut self.test_case.data, w, &mut self.prng)
            },
            Mutators::Standard(StandardMutators::SwapEndianness) => mutators::swap_endianness(
                &mut self.test_case.data,
                &mut self.prng,
            ),
            Mutators::Standard(StandardMutators::ChangeBit) => mutators::change_bit(
                &mut self.test_case.data,
                &mut self.prng,
            ),
            Mutators::Standard(StandardMutators::ChangeByte) => mutators::change_byte(
                &mut self.test_case.data,
                &mut self.prng,
            ),
            Mutators::Standard(StandardMutators::NegateByte) => mutators::negate_byte(
                &mut self.test_case.data,
                &mut self.prng,
            ),
            Mutators::Standard(StandardMutators::ArithmeticWidth) => {
                let k = self.prng.rand_range(0, 4);
                let w: usize = if k == 0 { 1 } else if k == 1 { 2 } else if k == 2 { 4 } else { 8 };
                mutators::arithmetic(&mut self.test_case.data, w, &mut self.prng)
            },
            Mutators::Standard(StandardMutators::CopyPart) => {
                let from = self.get_random_corpus_entry();
                let size = self.test_case.data.len();
                if from.len() == 0 || size == 0 {
                    Err(Error::new("Copy part candidate is empty"))
                } else if self.prng.bool() {
                    mutators::copy_part_of(&from, &mut self.test_case.data, &mut self.prng)
                } else {
                    let extra = self.prng.rand_range(1, if size > 1 { size } else { 1 });
                    let max_size = if size <= usize::MAX - extra { size + extra } else { size };
                    mutators::insert_part_of(&from, &mut self.test_case.data, max_size, &mut self.prng)
                }
            },
            Mutators::Standard(StandardMutators::ChangeASCIIInteger) => mutators::change_ascii_integer(
                &mut self.test_case.data,
                &mut self.prng,
            ),
            Mutators::Standard(StandardMutators::ChangeBinaryInteger) => mutators::change_binary_integer(
                &mut self.test_case.data,
                &mut self.prng,
            ),
            Mutators::Standard(StandardMutators::CrossOver) => {
                let other = self.get_random_corpus_entry();
                mutators::cross_over(&mut self.test_case.data, &other, &mut self.prng)
            },
            Mutators::Standard(StandardMutators::Splice) => {
                if self.corpus.len() == 0 {
                    Err(Error::new("Corpus is empty"))
                } else {
                    let c = self.prng.rand_range(0, self.corpus.len());
                    let other = vstd::slice::slice_to_vec(self.corpus[c].as_slice());
                    mutators::splice(&mut self.test_case.data, &other, &mut self.prng)
                }
            },
            Mutators::Standard(StandardMutators::Truncate) => mutators::truncate(
                &mut self.test_case.data,
                &mut self.prng,
            ),
            Mutators::Standard(StandardMutators::Append) => mutators::append(
                &mut self.test_case.data,
                self.mutation_passes,
                &mut self.prng,
            ),
            Mutators::Standard(StandardMutators::AddFromMagic) => mutators::add_from_magic(
                &mut self.test_case.data,
                &mut self.prng,
            ),
            Mutators::Standard(StandardMutators::AddWordFromDict) => {
                if self.user_token_dict.len() == 0 {
                    Err(Error::new("Dictionary is empty"))
                } else {
                    let w = self.prng.rand_range(0, self.user_token_dict.len());
                    let word = vstd::slice::slice_to_vec(self.user_token_dict[w].as_slice());
                    mutators::add_from_dict(&mut self.test_case.data, &word, &mut self.prng)
                }
            },
            Mutators::Standard(StandardMutators::AddWordFromTORC) => {
                if self.torc_token_dict.len() == 0 {
                    Err(Error::new("TORC token dict is empty"))
                } else {
                    let w = self.prng.rand_range(0, self.torc_token_dict.len());
                    let word = vstd::slice::slice_to_vec(self.torc_token_dict[w].as_slice());
                    mutators::add_from_dict(&mut self.test_case.data, &word, &mut self.prng)
                }
            },
            Mutators::Standard(StandardMutators::Ni) | Mutators::Custom(CustomMutators::Ni) => {
                self.ni()
            },
            Mutators::Standard(StandardMutators::GrammarGenerator) | Mutators::Custom(
                CustomMutators::GrammarGenerator(_),
            ) => self.grammar_gen(),
        };
        self.resync();
        r
    }

    /// Replaces the test case by a derivation of the grammar, when one is set.
    fn grammar_gen(&mut self) -> (r: Result<(), Error>)
        requires
            old(self).wf(),
        ensures
            final(self).wf(),
            final(self).same_setup(old(self)),
            old(self).grammar is None <==> r is Err,
            r is Err ==> final(self).test_case == old(self).test_case,
            r is Ok ==> final(self).test_case.data_ptr == 0,
    {
        match &self.grammar {
            Some(g) => {
                let mut out: Vec<u8> = Vec::new();
                let start = self.grammar_start;
                g.generate(0, start, &mut self.prng, &mut out);
                self.test_case = TestCase::new(&out);
                Ok(())
            },
            None => Err(Error::new("No grammar set")),
        }
    }

    /// Replaces the test case by its `ni` mutation.
    fn ni(&mut self) -> (r: Result<(), Error>)
        requires
            old(self).wf(),
        ensures
            final(self).wf(),
            final(self).same_setup(old(self)),
            r is Ok,
            final(self).test_case.data_ptr == 0,
    {
        let size = self.test_case.data.len();
        let corpus: &Vec<Vec<u8>> = &*self.corpus;
        let res = ni_mutate(self.test_case.data.as_slice(), size, &mut self.prng, corpus);
        match res {
            Ok(v) => {
                self.test_case = TestCase::new(&v);
                Ok(())
            },
            Err(e) => Err(e),
        }
    }

    /// Copies a uniformly chosen corpus entry into the test case, applies
    /// `mutation_passes` uniformly chosen mutators to it, and returns it.
    pub fn mutate(&mut self) -> (r: &TestCase)
        requires
            old(self).wf(),
            old(self).corpus@.len() > 0,
        ensures
            final(self).wf(),
            final(self).same_setup(old(self)),
            r.wf(),
            r.data_ptr == 0,
            *r == final(self).test_case,
    {
        self.set_new_test_case();
        let mut pass: usize = 0;
        while pass < self.mutation_passes
            invariant
                self.wf(),
                self.same_setup(old(self)),
                self.test_case.data_ptr == 0,
            decreases self.mutation_passes - pass,
        {
            if self.mutators.len() > 0 {
                let k = self.prng.rand_range(0, self.mutators.len());
                let m = self.mutators[k].clone();
                let _ = self.apply(&m);
            }
            pass = pass + 1;
        }
        &self.test_case
    }
}

} // verus!
