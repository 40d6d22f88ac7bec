//! The strings that are known before any program is read.
//!
//! Each variant of [`StaticStrings`] stands for one fixed text. The text of a
//! variant is `name`, its position in the declaration is `ordinal`, and both
//! tables are one-to-one.

use vstd::prelude::*;

verus! {

/// How many static strings there are.
pub const STATIC_STRING_COUNT: u8 = 200;

/// Static string values which are known at compile time and don't need to be interned.
#[derive(Debug, Clone, Copy, PartialEq, Eq, Structural, Hash)]
pub enum StaticStrings {
    /// The empty string
    EmptyString,
    /// `"<module>"`
    Module,
    // List methods
    /// `"append"`
    Append,
    /// `"insert"`
    Insert,
    /// `"extend"`
    Extend,
    /// `"reverse"`
    Reverse,
    /// `"sort"`
    Sort,
    // Dict methods
    /// `"get"`
    Get,
    /// `"keys"`
    Keys,
    /// `"values"`
    Values,
    /// `"items"`
    Items,
    /// `"setdefault"`
    Setdefault,
    /// `"popitem"`
    Popitem,
    /// `"fromkeys"`
    Fromkeys,
    // Methods shared by several containers
    /// `"pop"`
    Pop,
    /// `"clear"`
    Clear,
    /// `"copy"`
    Copy,
    // Set methods
    /// `"add"`
    Add,
    /// `"remove"`
    Remove,
    /// `"discard"`
    Discard,
    /// `"update"`
    Update,
    /// `"union"`
    Union,
    /// `"intersection"`
    Intersection,
    /// `"difference"`
    Difference,
    /// `"symmetric_difference"`
    SymmetricDifference,
    /// `"issubset"`
    Issubset,
    /// `"issuperset"`
    Issuperset,
    /// `"isdisjoint"`
    Isdisjoint,
    // String methods
    /// `"join"`
    Join,
    /// `"lower"`
    Lower,
    /// `"upper"`
    Upper,
    /// `"capitalize"`
    Capitalize,
    /// `"title"`
    Title,
    /// `"swapcase"`
    Swapcase,
    /// `"casefold"`
    Casefold,
    /// `"isalpha"`
    Isalpha,
    /// `"isdigit"`
    Isdigit,
    /// `"isalnum"`
    Isalnum,
    /// `"isnumeric"`
    Isnumeric,
    /// `"isspace"`
    Isspace,
    /// `"islower"`
    Islower,
    /// `"isupper"`
    Isupper,
    /// `"isascii"`
    Isascii,
    /// `"isdecimal"`
    Isdecimal,
    /// `"find"`
    Find,
    /// `"rfind"`
    Rfind,
    /// `"index"`
    Index,
    /// `"rindex"`
    Rindex,
    /// `"count"`
    Count,
    /// `"startswith"`
    Startswith,
    /// `"endswith"`
    Endswith,
    /// `"strip"`
    Strip,
    /// `"lstrip"`
    Lstrip,
    /// `"rstrip"`
    Rstrip,
    /// `"removeprefix"`
    Removeprefix,
    /// `"removesuffix"`
    Removesuffix,
    /// `"split"`
    Split,
    /// `"rsplit"`
    Rsplit,
    /// `"splitlines"`
    Splitlines,
    /// `"partition"`
    Partition,
    /// `"rpartition"`
    Rpartition,
    /// `"replace"`
    Replace,
    /// `"center"`
    Center,
    /// `"ljust"`
    Ljust,
    /// `"rjust"`
    Rjust,
    /// `"zfill"`
    Zfill,
    /// `"encode"`
    Encode,
    /// `"isidentifier"`
    Isidentifier,
    /// `"istitle"`
    Istitle,
    // Bytes methods
    /// `"decode"`
    Decode,
    /// `"hex"`
    Hex,
    /// `"fromhex"`
    Fromhex,
    // sys and collections module strings
    /// `"sys"`
    Sys,
    /// `"collections"`
    Collections,
    /// `"namedtuple"`
    Namedtuple,
    /// `"sys.version_info"`
    SysVersionInfo,
    /// `"version"`
    Version,
    /// `"version_info"`
    VersionInfo,
    /// `"platform"`
    Platform,
    /// `"stdout"`
    Stdout,
    /// `"stderr"`
    Stderr,
    /// `"major"`
    Major,
    /// `"minor"`
    Minor,
    /// `"micro"`
    Micro,
    /// `"releaselevel"`
    Releaselevel,
    /// `"serial"`
    Serial,
    /// `"final"`
    Final,
    /// `"3.14.0 (Monty)"`
    MontyVersionString,
    /// `"monty"`
    Monty,
    // os.stat_result fields
    /// `"StatResult"`
    OsStatResult,
    /// `"st_mode"`
    StMode,
    /// `"st_ino"`
    StIno,
    /// `"st_dev"`
    StDev,
    /// `"st_nlink"`
    StNlink,
    /// `"st_uid"`
    StUid,
    /// `"st_gid"`
    StGid,
    /// `"st_size"`
    StSize,
    /// `"st_atime"`
    StAtime,
    /// `"st_mtime"`
    StMtime,
    /// `"st_ctime"`
    StCtime,
    // typing module strings
    /// `"typing"`
    Typing,
    /// `"TYPE_CHECKING"`
    TypeChecking,
    /// `"Any"`
    Any,
    /// `"Optional"`
    Optional,
    /// `"Union"`
    UnionType,
    /// `"List"`
    ListType,
    /// `"Dict"`
    DictType,
    /// `"Tuple"`
    TupleType,
    /// `"Set"`
    SetType,
    /// `"FrozenSet"`
    FrozenSet,
    /// `"Callable"`
    Callable,
    /// `"Type"`
    Type,
    /// `"Sequence"`
    Sequence,
    /// `"Mapping"`
    Mapping,
    /// `"Iterable"`
    Iterable,
    /// `"Iterator"`
    IteratorType,
    /// `"Generator"`
    Generator,
    /// `"ClassVar"`
    ClassVar,
    /// `"Final"`
    FinalType,
    /// `"Literal"`
    Literal,
    /// `"TypeVar"`
    TypeVar,
    /// `"Generic"`
    Generic,
    /// `"Protocol"`
    Protocol,
    /// `"Annotated"`
    Annotated,
    /// `"Self"`
    SelfType,
    /// `"Never"`
    Never,
    /// `"NoReturn"`
    NoReturn,
    // asyncio module strings
    /// `"asyncio"`
    Asyncio,
    /// `"gather"`
    Gather,
    /// `"run"`
    Run,
    // os module strings
    /// `"os"`
    Os,
    /// `"getenv"`
    Getenv,
    /// `"environ"`
    Environ,
    /// `"default"`
    Default,
    // Exception attributes
    /// `"args"`
    Args,
    // Type attributes
    /// `"__name__"`
    DunderName,
    // pathlib module strings
    /// `"pathlib"`
    Pathlib,
    /// `"Path"`
    PathClass,
    // Path properties and methods
    /// `"name"`
    Name,
    /// `"parent"`
    Parent,
    /// `"stem"`
    Stem,
    /// `"suffix"`
    Suffix,
    /// `"suffixes"`
    Suffixes,
    /// `"parts"`
    Parts,
    /// `"is_absolute"`
    IsAbsolute,
    /// `"joinpath"`
    Joinpath,
    /// `"with_name"`
    WithName,
    /// `"with_stem"`
    WithStem,
    /// `"with_suffix"`
    WithSuffix,
    /// `"as_posix"`
    AsPosix,
    /// `"__fspath__"`
    Fspath,
    /// `"exists"`
    Exists,
    /// `"is_file"`
    IsFile,
    /// `"is_dir"`
    IsDir,
    /// `"is_symlink"`
    IsSymlink,
    /// `"stat"`
    StatMethod,
    /// `"read_bytes"`
    ReadBytes,
    /// `"read_text"`
    ReadText,
    /// `"iterdir"`
    Iterdir,
    /// `"resolve"`
    Resolve,
    /// `"absolute"`
    Absolute,
    /// `"write_text"`
    WriteText,
    /// `"write_bytes"`
    WriteBytes,
    /// `"mkdir"`
    Mkdir,
    /// `"unlink"`
    Unlink,
    /// `"rmdir"`
    Rmdir,
    /// `"rename"`
    Rename,
    // Slice attributes
    /// `"start"`
    Start,
    /// `"stop"`
    Stop,
    /// `"step"`
    Step,
    // re module strings
    /// `"re"`
    Re,
    /// `"compile"`
    Compile,
    /// `"match"`
    Match,
    /// `"search"`
    Search,
    /// `"fullmatch"`
    Fullmatch,
    /// `"findall"`
    Findall,
    /// `"sub"`
    Sub,
    /// `"group"`
    Group,
    /// `"groups"`
    Groups,
    /// `"span"`
    Span,
    /// `"end"`
    End,
    /// `"Pattern"`
    PatternClass,
    /// `"Match"`
    MatchClass,
    /// `"pattern"`
    PatternAttr,
    /// `"string"`
    StringAttr,
    /// `"flags"`
    Flags,
    /// `"IGNORECASE"`
    Ignorecase,
    /// `"I"`
    I,
    /// `"MULTILINE"`
    MultilineFlag,
    /// `"M"`
    M,
    /// `"DOTALL"`
    DotallFlag,
    /// `"S"`
    S,
    /// `"NOFLAG"`
    NoFlag,
    /// `"ASCII"`
    AsciiFlag,
    /// `"A"`
    A,
    /// `"PatternError"`
    PatternError,
    /// `"error"`
    Error,
    /// `"escape"`
    Escape,
    /// `"finditer"`
    Finditer,
    /// `"groupdict"`
    Groupdict,
}

impl StaticStrings {
    /// The text that the variant stands for.
    pub open spec fn name(self) -> Seq<char> {
        match self {
            StaticStrings::EmptyString => ""@,
            StaticStrings::Module => "<module>"@,
            StaticStrings::Append => "append"@,
            StaticStrings::Insert => "insert"@,
            StaticStrings::Extend => "extend"@,
            StaticStrings::Reverse => "reverse"@,
            StaticStrings::Sort => "sort"@,
            StaticStrings::Get => "get"@,
            StaticStrings::Keys => "keys"@,
            StaticStrings::Values => "values"@,
            StaticStrings::Items => "items"@,
            StaticStrings::Setdefault => "setdefault"@,
            StaticStrings::Popitem => "popitem"@,
            StaticStrings::Fromkeys => "fromkeys"@,
            StaticStrings::Pop => "pop"@,
            StaticStrings::Clear => "clear"@,
            StaticStrings::Copy => "copy"@,
            StaticStrings::Add => "add"@,
            StaticStrings::Remove => "remove"@,
            StaticStrings::Discard => "discard"@,
            StaticStrings::Update => "update"@,
            StaticStrings::Union => "union"@,
            StaticStrings::Intersection => "intersection"@,
            StaticStrings::Difference => "difference"@,
            StaticStrings::SymmetricDifference => "symmetric_difference"@,
            StaticStrings::Issubset => "issubset"@,
            StaticStrings::Issuperset => "issuperset"@,
            StaticStrings::Isdisjoint => "isdisjoint"@,
            StaticStrings::Join => "join"@,
            StaticStrings::Lower => "lower"@,
            StaticStrings::Upper => "upper"@,
            StaticStrings::Capitalize => "capitalize"@,
            StaticStrings::Title => "title"@,
            StaticStrings::Swapcase => "swapcase"@,
            StaticStrings::Casefold => "casefold"@,
            StaticStrings::Isalpha => "isalpha"@,
            StaticStrings::Isdigit => "isdigit"@,
            StaticStrings::Isalnum => "isalnum"@,
            StaticStrings::Isnumeric => "isnumeric"@,
            StaticStrings::Isspace => "isspace"@,
            StaticStrings::Islower => "islower"@,
            StaticStrings::Isupper => "isupper"@,
            StaticStrings::Isascii => "isascii"@,
            StaticStrings::Isdecimal => "isdecimal"@,
            StaticStrings::Find => "find"@,
            StaticStrings::Rfind => "rfind"@,
            StaticStrings::Index => "index"@,
            StaticStrings::Rindex => "rindex"@,
            StaticStrings::Count => "count"@,
            StaticStrings::Startswith => "startswith"@,
            StaticStrings::Endswith => "endswith"@,
            StaticStrings::Strip => "strip"@,
            StaticStrings::Lstrip => "lstrip"@,
            StaticStrings::Rstrip => "rstrip"@,
            StaticStrings::Removeprefix => "removeprefix"@,
            StaticStrings::Removesuffix => "removesuffix"@,
            StaticStrings::Split => "split"@,
            StaticStrings::Rsplit => "rsplit"@,
            StaticStrings::Splitlines => "splitlines"@,
            StaticStrings::Partition => "partition"@,
            StaticStrings::Rpartition => "rpartition"@,
            StaticStrings::Replace => "replace"@,
            StaticStrings::Center => "center"@,
            StaticStrings::Ljust => "ljust"@,
            StaticStrings::Rjust => "rjust"@,
            StaticStrings::Zfill => "zfill"@,
            StaticStrings::Encode => "encode"@,
            StaticStrings::Isidentifier => "isidentifier"@,
            StaticStrings::Istitle => "istitle"@,
            StaticStrings::Decode => "decode"@,
            StaticStrings::Hex => "hex"@,
            StaticStrings::Fromhex => "fromhex"@,
            StaticStrings::Sys => "sys"@,
            StaticStrings::Collections => "collections"@,
            StaticStrings::Namedtuple => "namedtuple"@,
            StaticStrings::SysVersionInfo => "sys.version_info"@,
            StaticStrings::Version => "version"@,
            StaticStrings::VersionInfo => "version_info"@,
            StaticStrings::Platform => "platform"@,
            StaticStrings::Stdout => "stdout"@,
            StaticStrings::Stderr => "stderr"@,
            StaticStrings::Major => "major"@,
            StaticStrings::Minor => "minor"@,
            StaticStrings::Micro => "micro"@,
            StaticStrings::Releaselevel => "releaselevel"@,
            StaticStrings::Serial => "serial"@,
            StaticStrings::Final => "final"@,
            StaticStrings::MontyVersionString => "3.14.0 (Monty)"@,
            StaticStrings::Monty => "monty"@,
            StaticStrings::OsStatResult => "StatResult"@,
            StaticStrings::StMode => "st_mode"@,
            StaticStrings::StIno => "st_ino"@,
            StaticStrings::StDev => "st_dev"@,
            StaticStrings::StNlink => "st_nlink"@,
            StaticStrings::StUid => "st_uid"@,
            StaticStrings::StGid => "st_gid"@,
            StaticStrings::StSize => "st_size"@,
            StaticStrings::StAtime => "st_atime"@,
            StaticStrings::StMtime => "st_mtime"@,
            StaticStrings::StCtime => "st_ctime"@,
            StaticStrings::Typing => "typing"@,
            StaticStrings::TypeChecking => "TYPE_CHECKING"@,
            StaticStrings::Any => "Any"@,
            StaticStrings::Optional => "Optional"@,
            StaticStrings::UnionType => "Union"@,
            StaticStrings::ListType => "List"@,
            StaticStrings::DictType => "Dict"@,
            StaticStrings::TupleType => "Tuple"@,
            StaticStrings::SetType => "Set"@,
            StaticStrings::FrozenSet => "FrozenSet"@,
            StaticStrings::Callable => "Callable"@,
            StaticStrings::Type => "Type"@,
            StaticStrings::Sequence => "Sequence"@,
            StaticStrings::Mapping => "Mapping"@,
            StaticStrings::Iterable => "Iterable"@,
            StaticStrings::IteratorType => "Iterator"@,
            StaticStrings::Generator => "Generator"@,
            StaticStrings::ClassVar => "ClassVar"@,
            StaticStrings::FinalType => "Final"@,
            StaticStrings::Literal => "Literal"@,
            StaticStrings::TypeVar => "TypeVar"@,
            StaticStrings::Generic => "Generic"@,
            StaticStrings::Protocol => "Protocol"@,
            StaticStrings::Annotated => "Annotated"@,
            StaticStrings::SelfType => "Self"@,
            StaticStrings::Never => "Never"@,
            StaticStrings::NoReturn => "NoReturn"@,
            StaticStrings::Asyncio => "asyncio"@,
            StaticStrings::Gather => "gather"@,
            StaticStrings::Run => "run"@,
            StaticStrings::Os => "os"@,
            StaticStrings::Getenv => "getenv"@,
            StaticStrings::Environ => "environ"@,
            StaticStrings::Default => "default"@,
            StaticStrings::Args => "args"@,
            StaticStrings::DunderName => "__name__"@,
            StaticStrings::Pathlib => "pathlib"@,
            StaticStrings::PathClass => "Path"@,
            StaticStrings::Name => "name"@,
            StaticStrings::Parent => "parent"@,
            StaticStrings::Stem => "stem"@,
            StaticStrings::Suffix => "suffix"@,
            StaticStrings::Suffixes => "suffixes"@,
            StaticStrings::Parts => "parts"@,
            StaticStrings::IsAbsolute => "is_absolute"@,
            StaticStrings::Joinpath => "joinpath"@,
            StaticStrings::WithName => "with_name"@,
            StaticStrings::WithStem => "with_stem"@,
            StaticStrings::WithSuffix => "with_suffix"@,
            StaticStrings::AsPosix => "as_posix"@,
            StaticStrings::Fspath => "__fspath__"@,
            StaticStrings::Exists => "exists"@,
            StaticStrings::IsFile => "is_file"@,
            StaticStrings::IsDir => "is_dir"@,
            StaticStrings::IsSymlink => "is_symlink"@,
            StaticStrings::StatMethod => "stat"@,
            StaticStrings::ReadBytes => "read_bytes"@,
            StaticStrings::ReadText => "read_text"@,
            StaticStrings::Iterdir => "iterdir"@,
            StaticStrings::Resolve => "resolve"@,
            StaticStrings::Absolute => "absolute"@,
            StaticStrings::WriteText => "write_text"@,
            StaticStrings::WriteBytes => "write_bytes"@,
            StaticStrings::Mkdir => "mkdir"@,
            StaticStrings::Unlink => "unlink"@,
            StaticStrings::Rmdir => "rmdir"@,
            StaticStrings::Rename => "rename"@,
            StaticStrings::Start => "start"@,
            StaticStrings::Stop => "stop"@,
            StaticStrings::Step => "step"@,
            StaticStrings::Re => "re"@,
            StaticStrings::Compile => "compile"@,
            StaticStrings::Match => "match"@,
            StaticStrings::Search => "search"@,
            StaticStrings::Fullmatch => "fullmatch"@,
            StaticStrings::Findall => "findall"@,
            StaticStrings::Sub => "sub"@,
            StaticStrings::Group => "group"@,
            StaticStrings::Groups => "groups"@,
            StaticStrings::Span => "span"@,
            StaticStrings::End => "end"@,
            StaticStrings::PatternClass => "Pattern"@,
            StaticStrings::MatchClass => "Match"@,
            StaticStrings::PatternAttr => "pattern"@,
            StaticStrings::StringAttr => "string"@,
            StaticStrings::Flags => "flags"@,
            StaticStrings::Ignorecase => "IGNORECASE"@,
            StaticStrings::I => "I"@,
            StaticStrings::MultilineFlag => "MULTILINE"@,
            StaticStrings::M => "M"@,
            StaticStrings::DotallFlag => "DOTALL"@,
            StaticStrings::S => "S"@,
            StaticStrings::NoFlag => "NOFLAG"@,
            StaticStrings::AsciiFlag => "ASCII"@,
            StaticStrings::A => "A"@,
            StaticStrings::PatternError => "PatternError"@,
            StaticStrings::Error => "error"@,
            StaticStrings::Escape => "escape"@,
            StaticStrings::Finditer => "finditer"@,
            StaticStrings::Groupdict => "groupdict"@,
        }
    }

    /// The position of the variant in the declaration.
    pub open spec fn ordinal(self) -> u8 {
        match self {
            StaticStrings::EmptyString => 0,
            StaticStrings::Module => 1,
            StaticStrings::Append => 2,
            StaticStrings::Insert => 3,
            StaticStrings::Extend => 4,
            StaticStrings::Reverse => 5,
            StaticStrings::Sort => 6,
            StaticStrings::Get => 7,
            StaticStrings::Keys => 8,
            StaticStrings::Values => 9,
            StaticStrings::Items => 10,
            StaticStrings::Setdefault => 11,
            StaticStrings::Popitem => 12,
            StaticStrings::Fromkeys => 13,
            StaticStrings::Pop => 14,
            StaticStrings::Clear => 15,
            StaticStrings::Copy => 16,
            StaticStrings::Add => 17,
            StaticStrings::Remove => 18,
            StaticStrings::Discard => 19,
            StaticStrings::Update => 20,
            StaticStrings::Union => 21,
            StaticStrings::Intersection => 22,
            StaticStrings::Difference => 23,
            StaticStrings::SymmetricDifference => 24,
            StaticStrings::Issubset => 25,
            StaticStrings::Issuperset => 26,
            StaticStrings::Isdisjoint => 27,
            StaticStrings::Join => 28,
            StaticStrings::Lower => 29,
            StaticStrings::Upper => 30,
            StaticStrings::Capitalize => 31,
            StaticStrings::Title => 32,
            StaticStrings::Swapcase => 33,
            StaticStrings::Casefold => 34,
            StaticStrings::Isalpha => 35,
            StaticStrings::Isdigit => 36,
            StaticStrings::Isalnum => 37,
            StaticStrings::Isnumeric => 38,
            StaticStrings::Isspace => 39,
            StaticStrings::Islower => 40,
            StaticStrings::Isupper => 41,
            StaticStrings::Isascii => 42,
            StaticStrings::Isdecimal => 43,
            StaticStrings::Find => 44,
            StaticStrings::Rfind => 45,
            StaticStrings::Index => 46,
            StaticStrings::Rindex => 47,
            StaticStrings::Count => 48,
            StaticStrings::Startswith => 49,
            StaticStrings::Endswith => 50,
            StaticStrings::Strip => 51,
            StaticStrings::Lstrip => 52,
            StaticStrings::Rstrip => 53,
            StaticStrings::Removeprefix => 54,
            StaticStrings::Removesuffix => 55,
            StaticStrings::Split => 56,
            StaticStrings::Rsplit => 57,
            StaticStrings::Splitlines => 58,
            StaticStrings::Partition => 59,
            StaticStrings::Rpartition => 60,
            StaticStrings::Replace => 61,
            StaticStrings::Center => 62,
            StaticStrings::Ljust => 63,
            StaticStrings::Rjust => 64,
            StaticStrings::Zfill => 65,
            StaticStrings::Encode => 66,
            StaticStrings::Isidentifier => 67,
            StaticStrings::Istitle => 68,
            StaticStrings::Decode => 69,
            StaticStrings::Hex => 70,
            StaticStrings::Fromhex => 71,
            StaticStrings::Sys => 72,
            StaticStrings::Collections => 73,
            StaticStrings::Namedtuple => 74,
            StaticStrings::SysVersionInfo => 75,
            StaticStrings::Version => 76,
            StaticStrings::VersionInfo => 77,
            StaticStrings::Platform => 78,
            StaticStrings::Stdout => 79,
            StaticStrings::Stderr => 80,
            StaticStrings::Major => 81,
            StaticStrings::Minor => 82,
            StaticStrings::Micro => 83,
            StaticStrings::Releaselevel => 84,
            StaticStrings::Serial => 85,
            StaticStrings::Final => 86,
            StaticStrings::MontyVersionString => 87,
            StaticStrings::Monty => 88,
            StaticStrings::OsStatResult => 89,
            StaticStrings::StMode => 90,
            StaticStrings::StIno => 91,
            StaticStrings::StDev => 92,
            StaticStrings::StNlink => 93,
            StaticStrings::StUid => 94,
            StaticStrings::StGid => 95,
            StaticStrings::StSize => 96,
            StaticStrings::StAtime => 97,
            StaticStrings::StMtime => 98,
            StaticStrings::StCtime => 99,
            StaticStrings::Typing => 100,
            StaticStrings::TypeChecking => 101,
            StaticStrings::Any => 102,
            StaticStrings::Optional => 103,
            StaticStrings::UnionType => 104,
            StaticStrings::ListType => 105,
            StaticStrings::DictType => 106,
            StaticStrings::TupleType => 107,
            StaticStrings::SetType => 108,
            StaticStrings::FrozenSet => 109,
            StaticStrings::Callable => 110,
            StaticStrings::Type => 111,
            StaticStrings::Sequence => 112,
            StaticStrings::Mapping => 113,
            StaticStrings::Iterable => 114,
            StaticStrings::IteratorType => 115,
            StaticStrings::Generator => 116,
            StaticStrings::ClassVar => 117,
            StaticStrings::FinalType => 118,
            StaticStrings::Literal => 119,
            StaticStrings::TypeVar => 120,
            StaticStrings::Generic => 121,
            StaticStrings::Protocol => 122,
            StaticStrings::Annotated => 123,
            StaticStrings::SelfType => 124,
            StaticStrings::Never => 125,
            StaticStrings::NoReturn => 126,
            StaticStrings::Asyncio => 127,
            StaticStrings::Gather => 128,
            StaticStrings::Run => 129,
            StaticStrings::Os => 130,
            StaticStrings::Getenv => 131,
            StaticStrings::Environ => 132,
            StaticStrings::Default => 133,
            StaticStrings::Args => 134,
            StaticStrings::DunderName => 135,
            StaticStrings::Pathlib => 136,
            StaticStrings::PathClass => 137,
            StaticStrings::Name => 138,
            StaticStrings::Parent => 139,
            StaticStrings::Stem => 140,
            StaticStrings::Suffix => 141,
            StaticStrings::Suffixes => 142,
            StaticStrings::Parts => 143,
            StaticStrings::IsAbsolute => 144,
            StaticStrings::Joinpath => 145,
            StaticStrings::WithName => 146,
            StaticStrings::WithStem => 147,
            StaticStrings::WithSuffix => 148,
            StaticStrings::AsPosix => 149,
            StaticStrings::Fspath => 150,
            StaticStrings::Exists => 151,
            StaticStrings::IsFile => 152,
            StaticStrings::IsDir => 153,
            StaticStrings::IsSymlink => 154,
            StaticStrings::StatMethod => 155,
            StaticStrings::ReadBytes => 156,
            StaticStrings::ReadText => 157,
            StaticStrings::Iterdir => 158,
            StaticStrings::Resolve => 159,
            StaticStrings::Absolute => 160,
            StaticStrings::WriteText => 161,
            StaticStrings::WriteBytes => 162,
            StaticStrings::Mkdir => 163,
            StaticStrings::Unlink => 164,
            StaticStrings::Rmdir => 165,
            StaticStrings::Rename => 166,
            StaticStrings::Start => 167,
            StaticStrings::Stop => 168,
            StaticStrings::Step => 169,
            StaticStrings::Re => 170,
            StaticStrings::Compile => 171,
            StaticStrings::Match => 172,
            StaticStrings::Search => 173,
            StaticStrings::Fullmatch => 174,
            StaticStrings::Findall => 175,
            StaticStrings::Sub => 176,
            StaticStrings::Group => 177,
            StaticStrings::Groups => 178,
            StaticStrings::Span => 179,
            StaticStrings::End => 180,
            StaticStrings::PatternClass => 181,
            StaticStrings::MatchClass => 182,
            StaticStrings::PatternAttr => 183,
            StaticStrings::StringAttr => 184,
            StaticStrings::Flags => 185,
            StaticStrings::Ignorecase => 186,
            StaticStrings::I => 187,
            StaticStrings::MultilineFlag => 188,
            StaticStrings::M => 189,
            StaticStrings::DotallFlag => 190,
            StaticStrings::S => 191,
            StaticStrings::NoFlag => 192,
            StaticStrings::AsciiFlag => 193,
            StaticStrings::A => 194,
            StaticStrings::PatternError => 195,
            StaticStrings::Error => 196,
            StaticStrings::Escape => 197,
            StaticStrings::Finditer => 198,
            StaticStrings::Groupdict => 199,
        }
    }

    /// Returns the text that the variant stands for.
    pub fn as_str(self) -> (r: &'static str)
        ensures
            r@ == self.name(),
    {
        match self {
            StaticStrings::EmptyString => "",
            StaticStrings::Module => "<module>",
            StaticStrings::Append => "append",
            StaticStrings::Insert => "insert",
            StaticStrings::Extend => "extend",
            StaticStrings::Reverse => "reverse",
            StaticStrings::Sort => "sort",
            StaticStrings::Get => "get",
            StaticStrings::Keys => "keys",
            StaticStrings::Values => "values",
            StaticStrings::Items => "items",
            StaticStrings::Setdefault => "setdefault",
            StaticStrings::Popitem => "popitem",
            StaticStrings::Fromkeys => "fromkeys",
            StaticStrings::Pop => "pop",
            StaticStrings::Clear => "clear",
            StaticStrings::Copy => "copy",
            StaticStrings::Add => "add",
            StaticStrings::Remove => "remove",
            StaticStrings::Discard => "discard",
            StaticStrings::Update => "update",
            StaticStrings::Union => "union",
            StaticStrings::Intersection => "intersection",
            StaticStrings::Difference => "difference",
            StaticStrings::SymmetricDifference => "symmetric_difference",
            StaticStrings::Issubset => "issubset",
            StaticStrings::Issuperset => "issuperset",
            StaticStrings::Isdisjoint => "isdisjoint",
            StaticStrings::Join => "join",
            StaticStrings::Lower => "lower",
            StaticStrings::Upper => "upper",
            StaticStrings::Capitalize => "capitalize",
            StaticStrings::Title => "title",
            StaticStrings::Swapcase => "swapcase",
            StaticStrings::Casefold => "casefold",
            StaticStrings::Isalpha => "isalpha",
            StaticStrings::Isdigit => "isdigit",
            StaticStrings::Isalnum => "isalnum",
            StaticStrings::Isnumeric => "isnumeric",
            StaticStrings::Isspace => "isspace",
            StaticStrings::Islower => "islower",
            StaticStrings::Isupper => "isupper",
            StaticStrings::Isascii => "isascii",
            StaticStrings::Isdecimal => "isdecimal",
            StaticStrings::Find => "find",
            StaticStrings::Rfind => "rfind",
            StaticStrings::Index => "index",
            StaticStrings::Rindex => "rindex",
            StaticStrings::Count => "count",
            StaticStrings::Startswith => "startswith",
            StaticStrings::Endswith => "endswith",
            StaticStrings::Strip => "strip",
            StaticStrings::Lstrip => "lstrip",
            StaticStrings::Rstrip => "rstrip",
            StaticStrings::Removeprefix => "removeprefix",
            StaticStrings::Removesuffix => "removesuffix",
            StaticStrings::Split => "split",
            StaticStrings::Rsplit => "rsplit",
            StaticStrings::Splitlines => "splitlines",
            StaticStrings::Partition => "partition",
            StaticStrings::Rpartition => "rpartition",
            StaticStrings::Replace => "replace",
            StaticStrings::Center => "center",
            StaticStrings::Ljust => "ljust",
            StaticStrings::Rjust => "rjust",
            StaticStrings::Zfill => "zfill",
            StaticStrings::Encode => "encode",
            StaticStrings::Isidentifier => "isidentifier",
            StaticStrings::Istitle => "istitle",
            StaticStrings::Decode => "decode",
            StaticStrings::Hex => "hex",
            StaticStrings::Fromhex => "fromhex",
            StaticStrings::Sys => "sys",
            StaticStrings::Collections => "collections",
            StaticStrings::Namedtuple => "namedtuple",
            StaticStrings::SysVersionInfo => "sys.version_info",
            StaticStrings::Version => "version",
            StaticStrings::VersionInfo => "version_info",
            StaticStrings::Platform => "platform",
            StaticStrings::Stdout => "stdout",
            StaticStrings::Stderr => "stderr",
            StaticStrings::Major => "major",
            StaticStrings::Minor => "minor",
            StaticStrings::Micro => "micro",
            StaticStrings::Releaselevel => "releaselevel",
            StaticStrings::Serial => "serial",
            StaticStrings::Final => "final",
            StaticStrings::MontyVersionString => "3.14.0 (Monty)",
            StaticStrings::Monty => "monty",
            StaticStrings::OsStatResult => "StatResult",
            StaticStrings::StMode => "st_mode",
            StaticStrings::StIno => "st_ino",
            StaticStrings::StDev => "st_dev",
            StaticStrings::StNlink => "st_nlink",
            StaticStrings::StUid => "st_uid",
            StaticStrings::StGid => "st_gid",
            StaticStrings::StSize => "st_size",
            StaticStrings::StAtime => "st_atime",
            StaticStrings::StMtime => "st_mtime",
            StaticStrings::StCtime => "st_ctime",
            StaticStrings::Typing => "typing",
            StaticStrings::TypeChecking => "TYPE_CHECKING",
            StaticStrings::Any => "Any",
            StaticStrings::Optional => "Optional",
            StaticStrings::UnionType => "Union",
            StaticStrings::ListType => "List",
            StaticStrings::DictType => "Dict",
            StaticStrings::TupleType => "Tuple",
            StaticStrings::SetType => "Set",
            StaticStrings::FrozenSet => "FrozenSet",
            StaticStrings::Callable => "Callable",
            StaticStrings::Type => "Type",
            StaticStrings::Sequence => "Sequence",
            StaticStrings::Mapping => "Mapping",
            StaticStrings::Iterable => "Iterable",
            StaticStrings::IteratorType => "Iterator",
            StaticStrings::Generator => "Generator",
            StaticStrings::ClassVar => "ClassVar",
            StaticStrings::FinalType => "Final",
            StaticStrings::Literal => "Literal",
            StaticStrings::TypeVar => "TypeVar",
            StaticStrings::Generic => "Generic",
            StaticStrings::Protocol => "Protocol",
            StaticStrings::Annotated => "Annotated",
            StaticStrings::SelfType => "Self",
            StaticStrings::Never => "Never",
            StaticStrings::NoReturn => "NoReturn",
            StaticStrings::Asyncio => "asyncio",
            StaticStrings::Gather => "gather",
            StaticStrings::Run => "run",
            StaticStrings::Os => "os",
            StaticStrings::Getenv => "getenv",
            StaticStrings::Environ => "environ",
            StaticStrings::Default => "default",
            StaticStrings::Args => "args",
            StaticStrings::DunderName => "__name__",
            StaticStrings::Pathlib => "pathlib",
            StaticStrings::PathClass => "Path",
            StaticStrings::Name => "name",
            StaticStrings::Parent => "parent",
            StaticStrings::Stem => "stem",
            StaticStrings::Suffix => "suffix",
            StaticStrings::Suffixes => "suffixes",
            StaticStrings::Parts => "parts",
            StaticStrings::IsAbsolute => "is_absolute",
            StaticStrings::Joinpath => "joinpath",
            StaticStrings::WithName => "with_name",
            StaticStrings::WithStem => "with_stem",
            StaticStrings::WithSuffix => "with_suffix",
            StaticStrings::AsPosix => "as_posix",
            StaticStrings::Fspath => "__fspath__",
            StaticStrings::Exists => "exists",
            StaticStrings::IsFile => "is_file",
            StaticStrings::IsDir => "is_dir",
            StaticStrings::IsSymlink => "is_symlink",
            StaticStrings::StatMethod => "stat",
            StaticStrings::ReadBytes => "read_bytes",
            StaticStrings::ReadText => "read_text",
            StaticStrings::Iterdir => "iterdir",
            StaticStrings::Resolve => "resolve",
            StaticStrings::Absolute => "absolute",
            StaticStrings::WriteText => "write_text",
            StaticStrings::WriteBytes => "write_bytes",
            StaticStrings::Mkdir => "mkdir",
            StaticStrings::Unlink => "unlink",
            StaticStrings::Rmdir => "rmdir",
            StaticStrings::Rename => "rename",
            StaticStrings::Start => "start",
            StaticStrings::Stop => "stop",
            StaticStrings::Step => "step",
            StaticStrings::Re => "re",
            StaticStrings::Compile => "compile",
            StaticStrings::Match => "match",
            StaticStrings::Search => "search",
            StaticStrings::Fullmatch => "fullmatch",
            StaticStrings::Findall => "findall",
            StaticStrings::Sub => "sub",
            StaticStrings::Group => "group",
            StaticStrings::Groups => "groups",
            StaticStrings::Span => "span",
            StaticStrings::End => "end",
            StaticStrings::PatternClass => "Pattern",
            StaticStrings::MatchClass => "Match",
            StaticStrings::PatternAttr => "pattern",
            StaticStrings::StringAttr => "string",
            StaticStrings::Flags => "flags",
            StaticStrings::Ignorecase => "IGNORECASE",
            StaticStrings::I => "I",
            StaticStrings::MultilineFlag => "MULTILINE",
            StaticStrings::M => "M",
            StaticStrings::DotallFlag => "DOTALL",
            StaticStrings::S => "S",
            StaticStrings::NoFlag => "NOFLAG",
            StaticStrings::AsciiFlag => "ASCII",
            StaticStrings::A => "A",
            StaticStrings::PatternError => "PatternError",
            StaticStrings::Error => "error",
            StaticStrings::Escape => "escape",
            StaticStrings::Finditer => "finditer",
            StaticStrings::Groupdict => "groupdict",
        }
    }

    /// Returns the position of the variant in the declaration.
    pub fn to_repr(self) -> (r: u8)
        ensures
            r == self.ordinal(),
            r < STATIC_STRING_COUNT,
    {
        match self {
            StaticStrings::EmptyString => 0,
            StaticStrings::Module => 1,
            StaticStrings::Append => 2,
            StaticStrings::Insert => 3,
            StaticStrings::Extend => 4,
            StaticStrings::Reverse => 5,
            StaticStrings::Sort => 6,
            StaticStrings::Get => 7,
            StaticStrings::Keys => 8,
            StaticStrings::Values => 9,
            StaticStrings::Items => 10,
            StaticStrings::Setdefault => 11,
            StaticStrings::Popitem => 12,
            StaticStrings::Fromkeys => 13,
            StaticStrings::Pop => 14,
            StaticStrings::Clear => 15,
            StaticStrings::Copy => 16,
            StaticStrings::Add => 17,
            StaticStrings::Remove => 18,
            StaticStrings::Discard => 19,
            StaticStrings::Update => 20,
            StaticStrings::Union => 21,
            StaticStrings::Intersection => 22,
            StaticStrings::Difference => 23,
            StaticStrings::SymmetricDifference => 24,
            StaticStrings::Issubset => 25,
            StaticStrings::Issuperset => 26,
            StaticStrings::Isdisjoint => 27,
            StaticStrings::Join => 28,
            StaticStrings::Lower => 29,
            StaticStrings::Upper => 30,
            StaticStrings::Capitalize => 31,
            StaticStrings::Title => 32,
            StaticStrings::Swapcase => 33,
            StaticStrings::Casefold => 34,
            StaticStrings::Isalpha => 35,
            StaticStrings::Isdigit => 36,
            StaticStrings::Isalnum => 37,
            StaticStrings::Isnumeric => 38,
            StaticStrings::Isspace => 39,
            StaticStrings::Islower => 40,
            StaticStrings::Isupper => 41,
            StaticStrings::Isascii => 42,
            StaticStrings::Isdecimal => 43,
            StaticStrings::Find => 44,
            StaticStrings::Rfind => 45,
            StaticStrings::Index => 46,
            StaticStrings::Rindex => 47,
            StaticStrings::Count => 48,
            StaticStrings::Startswith => 49,
            StaticStrings::Endswith => 50,
            StaticStrings::Strip => 51,
            StaticStrings::Lstrip => 52,
            StaticStrings::Rstrip => 53,
            StaticStrings::Removeprefix => 54,
            StaticStrings::Removesuffix => 55,
            StaticStrings::Split => 56,
            StaticStrings::Rsplit => 57,
            StaticStrings::Splitlines => 58,
            StaticStrings::Partition => 59,
            StaticStrings::Rpartition => 60,
            StaticStrings::Replace => 61,
            StaticStrings::Center => 62,
            StaticStrings::Ljust => 63,
            StaticStrings::Rjust => 64,
            StaticStrings::Zfill => 65,
            StaticStrings::Encode => 66,
            StaticStrings::Isidentifier => 67,
            StaticStrings::Istitle => 68,
            StaticStrings::Decode => 69,
            StaticStrings::Hex => 70,
            StaticStrings::Fromhex => 71,
            StaticStrings::Sys => 72,
            StaticStrings::Collections => 73,
            StaticStrings::Namedtuple => 74,
            StaticStrings::SysVersionInfo => 75,
            StaticStrings::Version => 76,
            StaticStrings::VersionInfo => 77,
            StaticStrings::Platform => 78,
            StaticStrings::Stdout => 79,
            StaticStrings::Stderr => 80,
            StaticStrings::Major => 81,
            StaticStrings::Minor => 82,
            StaticStrings::Micro => 83,
            StaticStrings::Releaselevel => 84,
            StaticStrings::Serial => 85,
            StaticStrings::Final => 86,
            StaticStrings::MontyVersionString => 87,
            StaticStrings::Monty => 88,
            StaticStrings::OsStatResult => 89,
            StaticStrings::StMode => 90,
            StaticStrings::StIno => 91,
            StaticStrings::StDev => 92,
            StaticStrings::StNlink => 93,
            StaticStrings::StUid => 94,
            StaticStrings::StGid => 95,
            StaticStrings::StSize => 96,
            StaticStrings::StAtime => 97,
            StaticStrings::StMtime => 98,
            StaticStrings::StCtime => 99,
            StaticStrings::Typing => 100,
            StaticStrings::TypeChecking => 101,
            StaticStrings::Any => 102,
            StaticStrings::Optional => 103,
            StaticStrings::UnionType => 104,
            StaticStrings::ListType => 105,
            StaticStrings::DictType => 106,
            StaticStrings::TupleType => 107,
            StaticStrings::SetType => 108,
            StaticStrings::FrozenSet => 109,
            StaticStrings::Callable => 110,
            StaticStrings::Type => 111,
            StaticStrings::Sequence => 112,
            StaticStrings::Mapping => 113,
            StaticStrings::Iterable => 114,
            StaticStrings::IteratorType => 115,
            StaticStrings::Generator => 116,
            StaticStrings::ClassVar => 117,
            StaticStrings::FinalType => 118,
            StaticStrings::Literal => 119,
            StaticStrings::TypeVar => 120,
            StaticStrings::Generic => 121,
            StaticStrings::Protocol => 122,
            StaticStrings::Annotated => 123,
            StaticStrings::SelfType => 124,
            StaticStrings::Never => 125,
            StaticStrings::NoReturn => 126,
            StaticStrings::Asyncio => 127,
            StaticStrings::Gather => 128,
            StaticStrings::Run => 129,
            StaticStrings::Os => 130,
            StaticStrings::Getenv => 131,
            StaticStrings::Environ => 132,
            StaticStrings::Default => 133,
            StaticStrings::Args => 134,
            StaticStrings::DunderName => 135,
            StaticStrings::Pathlib => 136,
            StaticStrings::PathClass => 137,
            StaticStrings::Name => 138,
            StaticStrings::Parent => 139,
            StaticStrings::Stem => 140,
            StaticStrings::Suffix => 141,
            StaticStrings::Suffixes => 142,
            StaticStrings::Parts => 143,
            StaticStrings::IsAbsolute => 144,
            StaticStrings::Joinpath => 145,
            StaticStrings::WithName => 146,
            StaticStrings::WithStem => 147,
            StaticStrings::WithSuffix => 148,
            StaticStrings::AsPosix => 149,
            StaticStrings::Fspath => 150,
            StaticStrings::Exists => 151,
            StaticStrings::IsFile => 152,
            StaticStrings::IsDir => 153,
            StaticStrings::IsSymlink => 154,
            StaticStrings::StatMethod => 155,
            StaticStrings::ReadBytes => 156,
            StaticStrings::ReadText => 157,
            StaticStrings::Iterdir => 158,
            StaticStrings::Resolve => 159,
            StaticStrings::Absolute => 160,
            StaticStrings::WriteText => 161,
            StaticStrings::WriteBytes => 162,
            StaticStrings::Mkdir => 163,
            StaticStrings::Unlink => 164,
            StaticStrings::Rmdir => 165,
            StaticStrings::Rename => 166,
            StaticStrings::Start => 167,
            StaticStrings::Stop => 168,
            StaticStrings::Step => 169,
            StaticStrings::Re => 170,
            StaticStrings::Compile => 171,
            StaticStrings::Match => 172,
            StaticStrings::Search => 173,
            StaticStrings::Fullmatch => 174,
            StaticStrings::Findall => 175,
            StaticStrings::Sub => 176,
            StaticStrings::Group => 177,
            StaticStrings::Groups => 178,
            StaticStrings::Span => 179,
            StaticStrings::End => 180,
            StaticStrings::PatternClass => 181,
            StaticStrings::MatchClass => 182,
            StaticStrings::PatternAttr => 183,
            StaticStrings::StringAttr => 184,
            StaticStrings::Flags => 185,
            StaticStrings::Ignorecase => 186,
            StaticStrings::I => 187,
            StaticStrings::MultilineFlag => 188,
            StaticStrings::M => 189,
            StaticStrings::DotallFlag => 190,
            StaticStrings::S => 191,
            StaticStrings::NoFlag => 192,
            StaticStrings::AsciiFlag => 193,
            StaticStrings::A => 194,
            StaticStrings::PatternError => 195,
            StaticStrings::Error => 196,
            StaticStrings::Escape => 197,
            StaticStrings::Finditer => 198,
            StaticStrings::Groupdict => 199,
        }
    }

    /// Returns the variant at a position of the declaration, if there is one.
    pub fn from_repr(repr: u8) -> (r: Option<StaticStrings>)
        ensures
            r is Some <==> repr < STATIC_STRING_COUNT,
            r matches Some(s) ==> s.ordinal() == repr,
    {
        match repr {
            0 => Some(StaticStrings::EmptyString),
            1 => Some(StaticStrings::Module),
            2 => Some(StaticStrings::Append),
            3 => Some(StaticStrings::Insert),
            4 => Some(StaticStrings::Extend),
            5 => Some(StaticStrings::Reverse),
            6 => Some(StaticStrings::Sort),
            7 => Some(StaticStrings::Get),
            8 => Some(StaticStrings::Keys),
            9 => Some(StaticStrings::Values),
            10 => Some(StaticStrings::Items),
            11 => Some(StaticStrings::Setdefault),
            12 => Some(StaticStrings::Popitem),
            13 => Some(StaticStrings::Fromkeys),
            14 => Some(StaticStrings::Pop),
            15 => Some(StaticStrings::Clear),
            16 => Some(StaticStrings::Copy),
            17 => Some(StaticStrings::Add),
            18 => Some(StaticStrings::Remove),
            19 => Some(StaticStrings::Discard),
            20 => Some(StaticStrings::Update),
            21 => Some(StaticStrings::Union),
            22 => Some(StaticStrings::Intersection),
            23 => Some(StaticStrings::Difference),
            24 => Some(StaticStrings::SymmetricDifference),
            25 => Some(StaticStrings::Issubset),
            26 => Some(StaticStrings::Issuperset),
            27 => Some(StaticStrings::Isdisjoint),
            28 => Some(StaticStrings::Join),
            29 => Some(StaticStrings::Lower),
            30 => Some(StaticStrings::Upper),
            31 => Some(StaticStrings::Capitalize),
            32 => Some(StaticStrings::Title),
            33 => Some(StaticStrings::Swapcase),
            34 => Some(StaticStrings::Casefold),
            35 => Some(StaticStrings::Isalpha),
            36 => Some(StaticStrings::Isdigit),
            37 => Some(StaticStrings::Isalnum),
            38 => Some(StaticStrings::Isnumeric),
            39 => Some(StaticStrings::Isspace),
            40 => Some(StaticStrings::Islower),
            41 => Some(StaticStrings::Isupper),
            42 => Some(StaticStrings::Isascii),
            43 => Some(StaticStrings::Isdecimal),
            44 => Some(StaticStrings::Find),
            45 => Some(StaticStrings::Rfind),
            46 => Some(StaticStrings::Index),
            47 => Some(StaticStrings::Rindex),
            48 => Some(StaticStrings::Count),
            49 => Some(StaticStrings::Startswith),
            50 => Some(StaticStrings::Endswith),
            51 => Some(StaticStrings::Strip),
            52 => Some(StaticStrings::Lstrip),
            53 => Some(StaticStrings::Rstrip),
            54 => Some(StaticStrings::Removeprefix),
            55 => Some(StaticStrings::Removesuffix),
            56 => Some(StaticStrings::Split),
            57 => Some(StaticStrings::Rsplit),
            58 => Some(StaticStrings::Splitlines),
            59 => Some(StaticStrings::Partition),
            60 => Some(StaticStrings::Rpartition),
            61 => Some(StaticStrings::Replace),
            62 => Some(StaticStrings::Center),
            63 => Some(StaticStrings::Ljust),
            64 => Some(StaticStrings::Rjust),
            65 => Some(StaticStrings::Zfill),
            66 => Some(StaticStrings::Encode),
            67 => Some(StaticStrings::Isidentifier),
            68 => Some(StaticStrings::Istitle),
            69 => Some(StaticStrings::Decode),
            70 => Some(StaticStrings::Hex),
            71 => Some(StaticStrings::Fromhex),
            72 => Some(StaticStrings::Sys),
            73 => Some(StaticStrings::Collections),
            74 => Some(StaticStrings::Namedtuple),
            75 => Some(StaticStrings::SysVersionInfo),
            76 => Some(StaticStrings::Version),
            77 => Some(StaticStrings::VersionInfo),
            78 => Some(StaticStrings::Platform),
            79 => Some(StaticStrings::Stdout),
            80 => Some(StaticStrings::Stderr),
            81 => Some(StaticStrings::Major),
            82 => Some(StaticStrings::Minor),
            83 => Some(StaticStrings::Micro),
            84 => Some(StaticStrings::Releaselevel),
            85 => Some(StaticStrings::Serial),
            86 => Some(StaticStrings::Final),
            87 => Some(StaticStrings::MontyVersionString),
            88 => Some(StaticStrings::Monty),
            89 => Some(StaticStrings::OsStatResult),
            90 => Some(StaticStrings::StMode),
            91 => Some(StaticStrings::StIno),
            92 => Some(StaticStrings::StDev),
            93 => Some(StaticStrings::StNlink),
            94 => Some(StaticStrings::StUid),
            95 => Some(StaticStrings::StGid),
            96 => Some(StaticStrings::StSize),
            97 => Some(StaticStrings::StAtime),
            98 => Some(StaticStrings::StMtime),
            99 => Some(StaticStrings::StCtime),
            100 => Some(StaticStrings::Typing),
            101 => Some(StaticStrings::TypeChecking),
            102 => Some(StaticStrings::Any),
            103 => Some(StaticStrings::Optional),
            104 => Some(StaticStrings::UnionType),
            105 => Some(StaticStrings::ListType),
            106 => Some(StaticStrings::DictType),
            107 => Some(StaticStrings::TupleType),
            108 => Some(StaticStrings::SetType),
            109 => Some(StaticStrings::FrozenSet),
            110 => Some(StaticStrings::Callable),
            111 => Some(StaticStrings::Type),
            112 => Some(StaticStrings::Sequence),
            113 => Some(StaticStrings::Mapping),
            114 => Some(StaticStrings::Iterable),
            115 => Some(StaticStrings::IteratorType),
            116 => Some(StaticStrings::Generator),
            117 => Some(StaticStrings::ClassVar),
            118 => Some(StaticStrings::FinalType),
            119 => Some(StaticStrings::Literal),
            120 => Some(StaticStrings::TypeVar),
            121 => Some(StaticStrings::Generic),
            122 => Some(StaticStrings::Protocol),
            123 => Some(StaticStrings::Annotated),
            124 => Some(StaticStrings::SelfType),
            125 => Some(StaticStrings::Never),
            126 => Some(StaticStrings::NoReturn),
            127 => Some(StaticStrings::Asyncio),
            128 => Some(StaticStrings::Gather),
            129 => Some(StaticStrings::Run),
            130 => Some(StaticStrings::Os),
            131 => Some(StaticStrings::Getenv),
            132 => Some(StaticStrings::Environ),
            133 => Some(StaticStrings::Default),
            134 => Some(StaticStrings::Args),
            135 => Some(StaticStrings::DunderName),
            136 => Some(StaticStrings::Pathlib),
            137 => Some(StaticStrings::PathClass),
            138 => Some(StaticStrings::Name),
            139 => Some(StaticStrings::Parent),
            140 => Some(StaticStrings::Stem),
            141 => Some(StaticStrings::Suffix),
            142 => Some(StaticStrings::Suffixes),
            143 => Some(StaticStrings::Parts),
            144 => Some(StaticStrings::IsAbsolute),
            145 => Some(StaticStrings::Joinpath),
            146 => Some(StaticStrings::WithName),
            147 => Some(StaticStrings::WithStem),
            148 => Some(StaticStrings::WithSuffix),
            149 => Some(StaticStrings::AsPosix),
            150 => Some(StaticStrings::Fspath),
            151 => Some(StaticStrings::Exists),
            152 => Some(StaticStrings::IsFile),
            153 => Some(StaticStrings::IsDir),
            154 => Some(StaticStrings::IsSymlink),
            155 => Some(StaticStrings::StatMethod),
            156 => Some(StaticStrings::ReadBytes),
            157 => Some(StaticStrings::ReadText),
            158 => Some(StaticStrings::Iterdir),
            159 => Some(StaticStrings::Resolve),
            160 => Some(StaticStrings::Absolute),
            161 => Some(StaticStrings::WriteText),
            162 => Some(StaticStrings::WriteBytes),
            163 => Some(StaticStrings::Mkdir),
            164 => Some(StaticStrings::Unlink),
            165 => Some(StaticStrings::Rmdir),
            166 => Some(StaticStrings::Rename),
            167 => Some(StaticStrings::Start),
            168 => Some(StaticStrings::Stop),
            169 => Some(StaticStrings::Step),
            170 => Some(StaticStrings::Re),
            171 => Some(StaticStrings::Compile),
            172 => Some(StaticStrings::Match),
            173 => Some(StaticStrings::Search),
            174 => Some(StaticStrings::Fullmatch),
            175 => Some(StaticStrings::Findall),
            176 => Some(StaticStrings::Sub),
            177 => Some(StaticStrings::Group),
            178 => Some(StaticStrings::Groups),
            179 => Some(StaticStrings::Span),
            180 => Some(StaticStrings::End),
            181 => Some(StaticStrings::PatternClass),
            182 => Some(StaticStrings::MatchClass),
            183 => Some(StaticStrings::PatternAttr),
            184 => Some(StaticStrings::StringAttr),
            185 => Some(StaticStrings::Flags),
            186 => Some(StaticStrings::Ignorecase),
            187 => Some(StaticStrings::I),
            188 => Some(StaticStrings::MultilineFlag),
            189 => Some(StaticStrings::M),
            190 => Some(StaticStrings::DotallFlag),
            191 => Some(StaticStrings::S),
            192 => Some(StaticStrings::NoFlag),
            193 => Some(StaticStrings::AsciiFlag),
            194 => Some(StaticStrings::A),
            195 => Some(StaticStrings::PatternError),
            196 => Some(StaticStrings::Error),
            197 => Some(StaticStrings::Escape),
            198 => Some(StaticStrings::Finditer),
            199 => Some(StaticStrings::Groupdict),
            _ => None,
        }
    }
}

/// A number that tells the static strings apart: the length, the first, fourth,
/// middle and last character.
spec fn fingerprint(t: Seq<char>) -> int {
    if t.len() == 0 {
        0
    } else {
        let fourth: int = if t.len() > 3 { t[3] as int } else { 0 };
        t.len() + 64 * (t[0] as int + 128 * (fourth + 128 * (t[t.len() as int / 2] as int + 128 * (t.last() as int))))
    }
}

/// The ordinal of the static string with a given fingerprint.
spec fn ordinal_of_fingerprint(f: int) -> u8 {

    if f == 0 { 0 }
    else if f == 8445005576 { 1 }
    else if f == 13528512582 { 2 }
    else if f == 15675996742 { 3 }
    else if f == 13528512838 { 4 }
    else if f == 13662731399 { 5 }
    else if f == 15689751748 { 6 }
    else if f == 15675169219 { 7 }
    else if f == 15562865348 { 8 }
    else if f == 15558688134 { 9 }
    else if f == 15541844549 { 10 }
    else if f == 15677037770 { 11 }
    else if f == 14740700167 { 12 }
    else if f == 15548135816 { 13 }
    else if f == 15148784643 { 14 }
    else if f == 15407528133 { 15 }
    else if f == 16358783172 { 16 }
    else if f == 13526636611 { 17 }
    else if f == 13673299078 { 18 }
    else if f == 13526399239 { 19 }
    else if f == 13658504518 { 20 }
    else if f == 14874967365 { 21 }
    else if f == 14870690380 { 22 }
    else if f == 13676370186 { 23 }
    else if f == 13661748436 { 24 }
    else if f == 15672982088 { 25 }
    else if f == 15676127818 { 26 }
    else if f == 15681272394 { 27 }
    else if f == 14874958468 { 28 }
    else if f == 15426435845 { 29 }
    else if f == 15419096389 { 30 }
    else if f == 13658568906 { 31 }
    else if f == 13678517509 { 32 }
    else if f == 13660724424 { 33 }
    else if f == 13529561288 { 34 }
    else if f == 13133257287 { 35 }
    else if f == 15680223815 { 36 }
    else if f == 14743870023 { 37 }
    else if f == 13402815049 { 38 }
    else if f == 13674355271 { 39 }
    else if f == 15418128967 { 40 }
    else if f == 15419185735 { 41 }
    else if f == 14214396487 { 42 }
    else if f == 14600157769 { 43 }
    else if f == 13537941892 { 44 }
    else if f == 13532781701 { 45 }
    else if f == 16211819077 { 46 }
    else if f == 16211811462 { 47 }
    else if f == 15692847301 { 48 }
    else if f == 14080171210 { 49 }
    else if f == 14084372808 { 50 }
    else if f == 15152790725 { 51 }
    else if f == 15152864006 { 52 }
    else if f == 15152864390 { 53 }
    else if f == 16224484492 { 54 }
    else if f == 16227630220 { 55 }
    else if f == 15683370181 { 56 }
    else if f == 15683394694 { 57 }
    else if f == 15549152458 { 58 }
    else if f == 14875008009 { 59 }
    else if f == 14874991754 { 60 }
    else if f == 13670128775 { 61 }
    else if f == 15423412422 { 62 }
    else if f == 15692888837 { 63 }
    else if f == 15692889221 { 64 }
    else if f == 14606507653 { 65 }
    else if f == 13673298246 { 66 }
    else if f == 15423281740 { 67 }
    else if f == 13666957895 { 68 }
    else if f == 13673298182 { 69 }
    else if f == 16212040195 { 70 }
    else if f == 16221321607 { 71 }
    else if f == 15561923779 { 72 }
    else if f == 15539738827 { 73 }
    else if f == 13678459786 { 74 }
    else if f == 15008652496 { 75 }
    else if f == 14885485959 { 76 }
    else if f == 15014460812 { 77 }
    else if f == 14737644552 { 78 }
    else if f == 15686565062 { 79 }
    else if f == 15407561926 { 80 }
    else if f == 15412886341 { 81 }
    else if f == 15417080645 { 82 }
    else if f == 15002917701 { 83 }
    else if f == 14602255500 { 84 }
    else if f == 14606482630 { 85 }
    else if f == 14611659141 { 86 }
    else if f == 5545299150 { 87 }
    else if f == 16356645701 { 88 }
    else if f == 15676118218 { 89 }
    else if f == 13671185607 { 90 }
    else if f == 15009135814 { 91 }
    else if f == 15943376070 { 92 }
    else if f == 14475451592 { 93 }
    else if f == 13545422022 { 94 }
    else if f == 13530627270 { 95 }
    else if f == 13677526215 { 96 }
    else if f == 13678427336 { 97 }
    else if f == 13678525640 { 98 }
    else if f == 13678443720 { 99 }
    else if f == 13935394054 { 100 }
    else if f == 9605526797 { 101 }
    else if f == 16355692611 { 102 }
    else if f == 14612771784 { 103 }
    else if f == 14874965317 { 104 }
    else if f == 15690797828 { 105 }
    else if f == 15674020100 { 106 }
    else if f == 13674321157 { 107 }
    else if f == 15675167939 { 108 }
    else if f == 15676166537 { 109 }
    else if f == 13658591432 { 110 }
    else if f == 13674263812 { 111 }
    else if f == 13662860488 { 112 }
    else if f == 13942788935 { 113 }
    else if f == 13658640968 { 114 }
    else if f == 15403471432 { 115 }
    else if f == 15421190601 { 116 }
    else if f == 15422353608 { 117 }
    else if f == 14611657093 { 118 }
    else if f == 14602253063 { 119 }
    else if f == 15407559943 { 120 }
    else if f == 13394293191 { 121 }
    else if f == 14612861960 { 122 }
    else if f == 13544321097 { 123 }
    else if f == 13804295364 { 124 }
    else if f == 15425385349 { 125 }
    else if f == 14886417288 { 126 }
    else if f == 15014418503 { 127 }
    else if f == 15410731462 { 128 }
    else if f == 14886640771 { 129 }
    else if f == 15555632066 { 130 }
    else if f == 15944432070 { 131 }
    else if f == 14874917191 { 132 }
    else if f == 15671769351 { 133 }
    else if f == 15543990340 { 134 }
    else if f == 12865779656 { 135 }
    else if f == 13263248391 { 136 }
    else if f == 14081135620 { 137 }
    else if f == 13671119748 { 138 }
    else if f == 15675997190 { 139 }
    else if f == 14736538820 { 140 }
    else if f == 16213925062 { 141 }
    else if f == 15545982152 { 142 }
    else if f == 15555533829 { 143 }
    else if f == 13677378123 { 144 }
    else if f == 14076992136 { 145 }
    else if f == 13656464841 { 146 }
    else if f == 14730206665 { 147 }
    else if f == 16227573195 { 148 }
    else if f == 16223443016 { 149 }
    else if f == 12853344202 { 150 }
    else if f == 15556573510 { 151 }
    else if f == 13663787591 { 152 }
    else if f == 15406504518 { 153 }
    else if f == 14476540490 { 154 }
    else if f == 15671925956 { 155 }
    else if f == 15538625674 { 156 }
    else if f == 15669697673 { 157 }
    else if f == 15421299271 { 158 }
    else if f == 13673299079 { 159 }
    else if f == 13670152264 { 160 }
    else if f == 15669829066 { 161 }
    else if f == 15535611339 { 162 }
    else if f == 15406545733 { 163 }
    else if f == 14472265030 { 164 }
    else if f == 15406546053 { 165 }
    else if f == 13658504326 { 166 }
    else if f == 15671909573 { 167 }
    else if f == 15149702340 { 168 }
    else if f == 15139216580 { 169 }
    else if f == 13661904002 { 170 }
    else if f == 13674354887 { 171 }
    else if f == 14081096517 { 172 }
    else if f == 14079122630 { 173 }
    else if f == 14073829769 { 174 }
    else if f == 14601197959 { 175 }
    else if f == 13276028099 { 176 }
    else if f == 15149742533 { 177 }
    else if f == 15558687174 { 178 }
    else if f == 14866570436 { 179 }
    else if f == 13537122627 { 180 }
    else if f == 14886540295 { 181 }
    else if f == 14081094469 { 182 }
    else if f == 14886542343 { 183 }
    else if f == 13935393990 { 184 }
    else if f == 15537600901 { 185 }
    else if f == 9334026826 { 186 }
    else if f == 9874444865 { 187 }
    else if f == 9338262345 { 188 }
    else if f == 10415510337 { 189 }
    else if f == 10269241606 { 190 }
    else if f == 11227108545 { 191 }
    else if f == 9609778054 { 192 }
    else if f == 9868750917 { 193 }
    else if f == 8792313921 { 194 }
    else if f == 15417119756 { 195 }
    else if f == 15421274437 { 196 }
    else if f == 13658503494 { 197 }
    else if f == 15411747208 { 198 }
    else if f == 15687662025 { 199 }
    else { 255 }
}

/// `lemma_fingerprint` for the ordinals from 0 to 19.
proof fn lemma_fingerprint_from_0(s: StaticStrings)
    requires
        0 <= s.ordinal() < 20,
    ensures
        ordinal_of_fingerprint(fingerprint(s.name())) == s.ordinal(),
{
    match s {
        StaticStrings::EmptyString => {
            assert(fingerprint(""@) == 0) by {
                reveal_strlit("");
            }
        },
        StaticStrings::Module => {
            assert(fingerprint("<module>"@) == 8445005576) by {
                reveal_strlit("<module>");
            }
        },
        StaticStrings::Append => {
            assert(fingerprint("append"@) == 13528512582) by {
                reveal_strlit("append");
            }
        },
        StaticStrings::Insert => {
            assert(fingerprint("insert"@) == 15675996742) by {
                reveal_strlit("insert");
            }
        },
        StaticStrings::Extend => {
            assert(fingerprint("extend"@) == 13528512838) by {
                reveal_strlit("extend");
            }
        },
        StaticStrings::Reverse => {
            assert(fingerprint("reverse"@) == 13662731399) by {
                reveal_strlit("reverse");
            }
        },
        StaticStrings::Sort => {
            assert(fingerprint("sort"@) == 15689751748) by {
                reveal_strlit("sort");
            }
        },
        StaticStrings::Get => {
            assert(fingerprint("get"@) == 15675169219) by {
                reveal_strlit("get");
            }
        },
        StaticStrings::Keys => {
            assert(fingerprint("keys"@) == 15562865348) by {
                reveal_strlit("keys");
            }
        },
        StaticStrings::Values => {
            assert(fingerprint("values"@) == 15558688134) by {
                reveal_strlit("values");
            }
        },
        StaticStrings::Items => {
            assert(fingerprint("items"@) == 15541844549) by {
                reveal_strlit("items");
            }
        },
        StaticStrings::Setdefault => {
            assert(fingerprint("setdefault"@) == 15677037770) by {
                reveal_strlit("setdefault");
            }
        },
        StaticStrings::Popitem => {
            assert(fingerprint("popitem"@) == 14740700167) by {
                reveal_strlit("popitem");
            }
        },
        StaticStrings::Fromkeys => {
            assert(fingerprint("fromkeys"@) == 15548135816) by {
                reveal_strlit("fromkeys");
            }
        },
        StaticStrings::Pop => {
            assert(fingerprint("pop"@) == 15148784643) by {
                reveal_strlit("pop");
            }
        },
        StaticStrings::Clear => {
            assert(fingerprint("clear"@) == 15407528133) by {
                reveal_strlit("clear");
            }
        },
        StaticStrings::Copy => {
            assert(fingerprint("copy"@) == 16358783172) by {
                reveal_strlit("copy");
            }
        },
        StaticStrings::Add => {
            assert(fingerprint("add"@) == 13526636611) by {
                reveal_strlit("add");
            }
        },
        StaticStrings::Remove => {
            assert(fingerprint("remove"@) == 13673299078) by {
                reveal_strlit("remove");
            }
        },
        StaticStrings::Discard => {
            assert(fingerprint("discard"@) == 13526399239) by {
                reveal_strlit("discard");
            }
        },
        _ => {},
    }
}

/// `lemma_fingerprint` for the ordinals from 20 to 39.
proof fn lemma_fingerprint_from_20(s: StaticStrings)
    requires
        20 <= s.ordinal() < 40,
    ensures
        ordinal_of_fingerprint(fingerprint(s.name())) == s.ordinal(),
{
    match s {
        StaticStrings::Update => {
            assert(fingerprint("update"@) == 13658504518) by {
                reveal_strlit("update");
            }
        },
        StaticStrings::Union => {
            assert(fingerprint("union"@) == 14874967365) by {
                reveal_strlit("union");
            }
        },
        StaticStrings::Intersection => {
            assert(fingerprint("intersection"@) == 14870690380) by {
                reveal_strlit("intersection");
            }
        },
        StaticStrings::Difference => {
            assert(fingerprint("difference"@) == 13676370186) by {
                reveal_strlit("difference");
            }
        },
        StaticStrings::SymmetricDifference => {
            assert(fingerprint("symmetric_difference"@) == 13661748436) by {
                reveal_strlit("symmetric_difference");
            }
        },
        StaticStrings::Issubset => {
            assert(fingerprint("issubset"@) == 15672982088) by {
                reveal_strlit("issubset");
            }
        },
        StaticStrings::Issuperset => {
            assert(fingerprint("issuperset"@) == 15676127818) by {
                reveal_strlit("issuperset");
            }
        },
        StaticStrings::Isdisjoint => {
            assert(fingerprint("isdisjoint"@) == 15681272394) by {
                reveal_strlit("isdisjoint");
            }
        },
        StaticStrings::Join => {
            assert(fingerprint("join"@) == 14874958468) by {
                reveal_strlit("join");
            }
        },
        StaticStrings::Lower => {
            assert(fingerprint("lower"@) == 15426435845) by {
                reveal_strlit("lower");
            }
        },
        StaticStrings::Upper => {
            assert(fingerprint("upper"@) == 15419096389) by {
                reveal_strlit("upper");
            }
        },
        StaticStrings::Capitalize => {
            assert(fingerprint("capitalize"@) == 13658568906) by {
                reveal_strlit("capitalize");
            }
        },
        StaticStrings::Title => {
            assert(fingerprint("title"@) == 13678517509) by {
                reveal_strlit("title");
            }
        },
        StaticStrings::Swapcase => {
            assert(fingerprint("swapcase"@) == 13660724424) by {
                reveal_strlit("swapcase");
            }
        },
        StaticStrings::Casefold => {
            assert(fingerprint("casefold"@) == 13529561288) by {
                reveal_strlit("casefold");
            }
        },
        StaticStrings::Isalpha => {
            assert(fingerprint("isalpha"@) == 13133257287) by {
                reveal_strlit("isalpha");
            }
        },
        StaticStrings::Isdigit => {
            assert(fingerprint("isdigit"@) == 15680223815) by {
                reveal_strlit("isdigit");
            }
        },
        StaticStrings::Isalnum => {
            assert(fingerprint("isalnum"@) == 14743870023) by {
                reveal_strlit("isalnum");
            }
        },
        StaticStrings::Isnumeric => {
            assert(fingerprint("isnumeric"@) == 13402815049) by {
                reveal_strlit("isnumeric");
            }
        },
        StaticStrings::Isspace => {
            assert(fingerprint("isspace"@) == 13674355271) by {
                reveal_strlit("isspace");
            }
        },
        _ => {},
    }
}

/// `lemma_fingerprint` for the ordinals from 40 to 59.
proof fn lemma_fingerprint_from_40(s: StaticStrings)
    requires
        40 <= s.ordinal() < 60,
    ensures
        ordinal_of_fingerprint(fingerprint(s.name())) == s.ordinal(),
{
    match s {
        StaticStrings::Islower => {
            assert(fingerprint("islower"@) == 15418128967) by {
                reveal_strlit("islower");
            }
        },
        StaticStrings::Isupper => {
            assert(fingerprint("isupper"@) == 15419185735) by {
                reveal_strlit("isupper");
            }
        },
        StaticStrings::Isascii => {
            assert(fingerprint("isascii"@) == 14214396487) by {
                reveal_strlit("isascii");
            }
        },
        StaticStrings::Isdecimal => {
            assert(fingerprint("isdecimal"@) == 14600157769) by {
                reveal_strlit("isdecimal");
            }
        },
        StaticStrings::Find => {
            assert(fingerprint("find"@) == 13537941892) by {
                reveal_strlit("find");
            }
        },
        StaticStrings::Rfind => {
            assert(fingerprint("rfind"@) == 13532781701) by {
                reveal_strlit("rfind");
            }
        },
        StaticStrings::Index => {
            assert(fingerprint("index"@) == 16211819077) by {
                reveal_strlit("index");
            }
        },
        StaticStrings::Rindex => {
            assert(fingerprint("rindex"@) == 16211811462) by {
                reveal_strlit("rindex");
            }
        },
        StaticStrings::Count => {
            assert(fingerprint("count"@) == 15692847301) by {
                reveal_strlit("count");
            }
        },
        StaticStrings::Startswith => {
            assert(fingerprint("startswith"@) == 14080171210) by {
                reveal_strlit("startswith");
            }
        },
        StaticStrings::Endswith => {
            assert(fingerprint("endswith"@) == 14084372808) by {
                reveal_strlit("endswith");
            }
        },
        StaticStrings::Strip => {
            assert(fingerprint("strip"@) == 15152790725) by {
                reveal_strlit("strip");
            }
        },
        StaticStrings::Lstrip => {
            assert(fingerprint("lstrip"@) == 15152864006) by {
                reveal_strlit("lstrip");
            }
        },
        StaticStrings::Rstrip => {
            assert(fingerprint("rstrip"@) == 15152864390) by {
                reveal_strlit("rstrip");
            }
        },
        StaticStrings::Removeprefix => {
            assert(fingerprint("removeprefix"@) == 16224484492) by {
                reveal_strlit("removeprefix");
            }
        },
        StaticStrings::Removesuffix => {
            assert(fingerprint("removesuffix"@) == 16227630220) by {
                reveal_strlit("removesuffix");
            }
        },
        StaticStrings::Split => {
            assert(fingerprint("split"@) == 15683370181) by {
                reveal_strlit("split");
            }
        },
        StaticStrings::Rsplit => {
            assert(fingerprint("rsplit"@) == 15683394694) by {
                reveal_strlit("rsplit");
            }
        },
        StaticStrings::Splitlines => {
            assert(fingerprint("splitlines"@) == 15549152458) by {
                reveal_strlit("splitlines");
            }
        },
        StaticStrings::Partition => {
            assert(fingerprint("partition"@) == 14875008009) by {
                reveal_strlit("partition");
            }
        },
        _ => {},
    }
}

/// `lemma_fingerprint` for the ordinals from 60 to 79.
proof fn lemma_fingerprint_from_60(s: StaticStrings)
    requires
        60 <= s.ordinal() < 80,
    ensures
        ordinal_of_fingerprint(fingerprint(s.name())) == s.ordinal(),
{
    match s {
        StaticStrings::Rpartition => {
            assert(fingerprint("rpartition"@) == 14874991754) by {
                reveal_strlit("rpartition");
            }
        },
        StaticStrings::Replace => {
            assert(fingerprint("replace"@) == 13670128775) by {
                reveal_strlit("replace");
            }
        },
        StaticStrings::Center => {
            assert(fingerprint("center"@) == 15423412422) by {
                reveal_strlit("center");
            }
        },
        StaticStrings::Ljust => {
            assert(fingerprint("ljust"@) == 15692888837) by {
                reveal_strlit("ljust");
            }
        },
        StaticStrings::Rjust => {
            assert(fingerprint("rjust"@) == 15692889221) by {
                reveal_strlit("rjust");
            }
        },
        StaticStrings::Zfill => {
            assert(fingerprint("zfill"@) == 14606507653) by {
                reveal_strlit("zfill");
            }
        },
        StaticStrings::Encode => {
            assert(fingerprint("encode"@) == 13673298246) by {
                reveal_strlit("encode");
            }
        },
        StaticStrings::Isidentifier => {
            assert(fingerprint("isidentifier"@) == 15423281740) by {
                reveal_strlit("isidentifier");
            }
        },
        StaticStrings::Istitle => {
            assert(fingerprint("istitle"@) == 13666957895) by {
                reveal_strlit("istitle");
            }
        },
        StaticStrings::Decode => {
            assert(fingerprint("decode"@) == 13673298182) by {
                reveal_strlit("decode");
            }
        },
        StaticStrings::Hex => {
            assert(fingerprint("hex"@) == 16212040195) by {
                reveal_strlit("hex");
            }
        },
        StaticStrings::Fromhex => {
            assert(fingerprint("fromhex"@) == 16221321607) by {
                reveal_strlit("fromhex");
            }
        },
        StaticStrings::Sys => {
            assert(fingerprint("sys"@) == 15561923779) by {
                reveal_strlit("sys");
            }
        },
        StaticStrings::Collections => {
            assert(fingerprint("collections"@) == 15539738827) by {
                reveal_strlit("collections");
            }
        },
        StaticStrings::Namedtuple => {
            assert(fingerprint("namedtuple"@) == 13678459786) by {
                reveal_strlit("namedtuple");
            }
        },
        StaticStrings::SysVersionInfo => {
            assert(fingerprint("sys.version_info"@) == 15008652496) by {
                reveal_strlit("sys.version_info");
            }
        },
        StaticStrings::Version => {
            assert(fingerprint("version"@) == 14885485959) by {
                reveal_strlit("version");
            }
        },
        StaticStrings::VersionInfo => {
            assert(fingerprint("version_info"@) == 15014460812) by {
                reveal_strlit("version_info");
            }
        },
        StaticStrings::Platform => {
            assert(fingerprint("platform"@) == 14737644552) by {
                reveal_strlit("platform");
            }
        },
        StaticStrings::Stdout => {
            assert(fingerprint("stdout"@) == 15686565062) by {
                reveal_strlit("stdout");
            }
        },
        _ => {},
    }
}

/// `lemma_fingerprint` for the ordinals from 80 to 99.
proof fn lemma_fingerprint_from_80(s: StaticStrings)
    requires
        80 <= s.ordinal() < 100,
    ensures
        ordinal_of_fingerprint(fingerprint(s.name())) == s.ordinal(),
{
    match s {
        StaticStrings::Stderr => {
            assert(fingerprint("stderr"@) == 15407561926) by {
                reveal_strlit("stderr");
            }
        },
        StaticStrings::Major => {
            assert(fingerprint("major"@) == 15412886341) by {
                reveal_strlit("major");
            }
        },
        StaticStrings::Minor => {
            assert(fingerprint("minor"@) == 15417080645) by {
                reveal_strlit("minor");
            }
        },
        StaticStrings::Micro => {
            assert(fingerprint("micro"@) == 15002917701) by {
                reveal_strlit("micro");
            }
        },
        StaticStrings::Releaselevel => {
            assert(fingerprint("releaselevel"@) == 14602255500) by {
                reveal_strlit("releaselevel");
            }
        },
        StaticStrings::Serial => {
            assert(fingerprint("serial"@) == 14606482630) by {
                reveal_strlit("serial");
            }
        },
        StaticStrings::Final => {
            assert(fingerprint("final"@) == 14611659141) by {
                reveal_strlit("final");
            }
        },
        StaticStrings::MontyVersionString => {
            assert(fingerprint("3.14.0 (Monty)"@) == 5545299150) by {
                reveal_strlit("3.14.0 (Monty)");
            }
        },
        StaticStrings::Monty => {
            assert(fingerprint("monty"@) == 16356645701) by {
                reveal_strlit("monty");
            }
        },
        StaticStrings::OsStatResult => {
            assert(fingerprint("StatResult"@) == 15676118218) by {
                reveal_strlit("StatResult");
            }
        },
        StaticStrings::StMode => {
            assert(fingerprint("st_mode"@) == 13671185607) by {
                reveal_strlit("st_mode");
            }
        },
        StaticStrings::StIno => {
            assert(fingerprint("st_ino"@) == 15009135814) by {
                reveal_strlit("st_ino");
            }
        },
        StaticStrings::StDev => {
            assert(fingerprint("st_dev"@) == 15943376070) by {
                reveal_strlit("st_dev");
            }
        },
        StaticStrings::StNlink => {
            assert(fingerprint("st_nlink"@) == 14475451592) by {
                reveal_strlit("st_nlink");
            }
        },
        StaticStrings::StUid => {
            assert(fingerprint("st_uid"@) == 13545422022) by {
                reveal_strlit("st_uid");
            }
        },
        StaticStrings::StGid => {
            assert(fingerprint("st_gid"@) == 13530627270) by {
                reveal_strlit("st_gid");
            }
        },
        StaticStrings::StSize => {
            assert(fingerprint("st_size"@) == 13677526215) by {
                reveal_strlit("st_size");
            }
        },
        StaticStrings::StAtime => {
            assert(fingerprint("st_atime"@) == 13678427336) by {
                reveal_strlit("st_atime");
            }
        },
        StaticStrings::StMtime => {
            assert(fingerprint("st_mtime"@) == 13678525640) by {
                reveal_strlit("st_mtime");
            }
        },
        StaticStrings::StCtime => {
            assert(fingerprint("st_ctime"@) == 13678443720) by {
                reveal_strlit("st_ctime");
            }
        },
        _ => {},
    }
}

/// `lemma_fingerprint` for the ordinals from 100 to 119.
proof fn lemma_fingerprint_from_100(s: StaticStrings)
    requires
        100 <= s.ordinal() < 120,
    ensures
        ordinal_of_fingerprint(fingerprint(s.name())) == s.ordinal(),
{
    match s {
        StaticStrings::Typing => {
            assert(fingerprint("typing"@) == 13935394054) by {
                reveal_strlit("typing");
            }
        },
        StaticStrings::TypeChecking => {
            assert(fingerprint("TYPE_CHECKING"@) == 9605526797) by {
                reveal_strlit("TYPE_CHECKING");
            }
        },
        StaticStrings::Any => {
            assert(fingerprint("Any"@) == 16355692611) by {
                reveal_strlit("Any");
            }
        },
        StaticStrings::Optional => {
            assert(fingerprint("Optional"@) == 14612771784) by {
                reveal_strlit("Optional");
            }
        },
        StaticStrings::UnionType => {
            assert(fingerprint("Union"@) == 14874965317) by {
                reveal_strlit("Union");
            }
        },
        StaticStrings::ListType => {
            assert(fingerprint("List"@) == 15690797828) by {
                reveal_strlit("List");
            }
        },
        StaticStrings::DictType => {
            assert(fingerprint("Dict"@) == 15674020100) by {
                reveal_strlit("Dict");
            }
        },
        StaticStrings::TupleType => {
            assert(fingerprint("Tuple"@) == 13674321157) by {
                reveal_strlit("Tuple");
            }
        },
        StaticStrings::SetType => {
            assert(fingerprint("Set"@) == 15675167939) by {
                reveal_strlit("Set");
            }
        },
        StaticStrings::FrozenSet => {
            assert(fingerprint("FrozenSet"@) == 15676166537) by {
                reveal_strlit("FrozenSet");
            }
        },
        StaticStrings::Callable => {
            assert(fingerprint("Callable"@) == 13658591432) by {
                reveal_strlit("Callable");
            }
        },
        StaticStrings::Type => {
            assert(fingerprint("Type"@) == 13674263812) by {
                reveal_strlit("Type");
            }
        },
        StaticStrings::Sequence => {
            assert(fingerprint("Sequence"@) == 13662860488) by {
                reveal_strlit("Sequence");
            }
        },
        StaticStrings::Mapping => {
            assert(fingerprint("Mapping"@) == 13942788935) by {
                reveal_strlit("Mapping");
            }
        },
        StaticStrings::Iterable => {
            assert(fingerprint("Iterable"@) == 13658640968) by {
                reveal_strlit("Iterable");
            }
        },
        StaticStrings::IteratorType => {
            assert(fingerprint("Iterator"@) == 15403471432) by {
                reveal_strlit("Iterator");
            }
        },
        StaticStrings::Generator => {
            assert(fingerprint("Generator"@) == 15421190601) by {
                reveal_strlit("Generator");
            }
        },
        StaticStrings::ClassVar => {
            assert(fingerprint("ClassVar"@) == 15422353608) by {
                reveal_strlit("ClassVar");
            }
        },
        StaticStrings::FinalType => {
            assert(fingerprint("Final"@) == 14611657093) by {
                reveal_strlit("Final");
            }
        },
        StaticStrings::Literal => {
            assert(fingerprint("Literal"@) == 14602253063) by {
                reveal_strlit("Literal");
            }
        },
        _ => {},
    }
}

/// `lemma_fingerprint` for the ordinals from 120 to 139.
proof fn lemma_fingerprint_from_120(s: StaticStrings)
    requires
        120 <= s.ordinal() < 140,
    ensures
        ordinal_of_fingerprint(fingerprint(s.name())) == s.ordinal(),
{
    match s {
        StaticStrings::TypeVar => {
            assert(fingerprint("TypeVar"@) == 15407559943) by {
                reveal_strlit("TypeVar");
            }
        },
        StaticStrings::Generic => {
            assert(fingerprint("Generic"@) == 13394293191) by {
                reveal_strlit("Generic");
            }
        },
        StaticStrings::Protocol => {
            assert(fingerprint("Protocol"@) == 14612861960) by {
                reveal_strlit("Protocol");
            }
        },
        StaticStrings::Annotated => {
            assert(fingerprint("Annotated"@) == 13544321097) by {
                reveal_strlit("Annotated");
            }
        },
        StaticStrings::SelfType => {
            assert(fingerprint("Self"@) == 13804295364) by {
                reveal_strlit("Self");
            }
        },
        StaticStrings::Never => {
            assert(fingerprint("Never"@) == 15425385349) by {
                reveal_strlit("Never");
            }
        },
        StaticStrings::NoReturn => {
            assert(fingerprint("NoReturn"@) == 14886417288) by {
                reveal_strlit("NoReturn");
            }
        },
        StaticStrings::Asyncio => {
            assert(fingerprint("asyncio"@) == 15014418503) by {
                reveal_strlit("asyncio");
            }
        },
        StaticStrings::Gather => {
            assert(fingerprint("gather"@) == 15410731462) by {
                reveal_strlit("gather");
            }
        },
        StaticStrings::Run => {
            assert(fingerprint("run"@) == 14886640771) by {
                reveal_strlit("run");
            }
        },
        StaticStrings::Os => {
            assert(fingerprint("os"@) == 15555632066) by {
                reveal_strlit("os");
            }
        },
        StaticStrings::Getenv => {
            assert(fingerprint("getenv"@) == 15944432070) by {
                reveal_strlit("getenv");
            }
        },
        StaticStrings::Environ => {
            assert(fingerprint("environ"@) == 14874917191) by {
                reveal_strlit("environ");
            }
        },
        StaticStrings::Default => {
            assert(fingerprint("default"@) == 15671769351) by {
                reveal_strlit("default");
            }
        },
        StaticStrings::Args => {
            assert(fingerprint("args"@) == 15543990340) by {
                reveal_strlit("args");
            }
        },
        StaticStrings::DunderName => {
            assert(fingerprint("__name__"@) == 12865779656) by {
                reveal_strlit("__name__");
            }
        },
        StaticStrings::Pathlib => {
            assert(fingerprint("pathlib"@) == 13263248391) by {
                reveal_strlit("pathlib");
            }
        },
        StaticStrings::PathClass => {
            assert(fingerprint("Path"@) == 14081135620) by {
                reveal_strlit("Path");
            }
        },
        StaticStrings::Name => {
            assert(fingerprint("name"@) == 13671119748) by {
                reveal_strlit("name");
            }
        },
        StaticStrings::Parent => {
            assert(fingerprint("parent"@) == 15675997190) by {
                reveal_strlit("parent");
            }
        },
        _ => {},
    }
}

/// `lemma_fingerprint` for the ordinals from 140 to 159.
proof fn lemma_fingerprint_from_140(s: StaticStrings)
    requires
        140 <= s.ordinal() < 160,
    ensures
        ordinal_of_fingerprint(fingerprint(s.name())) == s.ordinal(),
{
    match s {
        StaticStrings::Stem => {
            assert(fingerprint("stem"@) == 14736538820) by {
                reveal_strlit("stem");
            }
        },
        StaticStrings::Suffix => {
            assert(fingerprint("suffix"@) == 16213925062) by {
                reveal_strlit("suffix");
            }
        },
        StaticStrings::Suffixes => {
            assert(fingerprint("suffixes"@) == 15545982152) by {
                reveal_strlit("suffixes");
            }
        },
        StaticStrings::Parts => {
            assert(fingerprint("parts"@) == 15555533829) by {
                reveal_strlit("parts");
            }
        },
        StaticStrings::IsAbsolute => {
            assert(fingerprint("is_absolute"@) == 13677378123) by {
                reveal_strlit("is_absolute");
            }
        },
        StaticStrings::Joinpath => {
            assert(fingerprint("joinpath"@) == 14076992136) by {
                reveal_strlit("joinpath");
            }
        },
        StaticStrings::WithName => {
            assert(fingerprint("with_name"@) == 13656464841) by {
                reveal_strlit("with_name");
            }
        },
        StaticStrings::WithStem => {
            assert(fingerprint("with_stem"@) == 14730206665) by {
                reveal_strlit("with_stem");
            }
        },
        StaticStrings::WithSuffix => {
            assert(fingerprint("with_suffix"@) == 16227573195) by {
                reveal_strlit("with_suffix");
            }
        },
        StaticStrings::AsPosix => {
            assert(fingerprint("as_posix"@) == 16223443016) by {
                reveal_strlit("as_posix");
            }
        },
        StaticStrings::Fspath => {
            assert(fingerprint("__fspath__"@) == 12853344202) by {
                reveal_strlit("__fspath__");
            }
        },
        StaticStrings::Exists => {
            assert(fingerprint("exists"@) == 15556573510) by {
                reveal_strlit("exists");
            }
        },
        StaticStrings::IsFile => {
            assert(fingerprint("is_file"@) == 13663787591) by {
                reveal_strlit("is_file");
            }
        },
        StaticStrings::IsDir => {
            assert(fingerprint("is_dir"@) == 15406504518) by {
                reveal_strlit("is_dir");
            }
        },
        StaticStrings::IsSymlink => {
            assert(fingerprint("is_symlink"@) == 14476540490) by {
                reveal_strlit("is_symlink");
            }
        },
        StaticStrings::StatMethod => {
            assert(fingerprint("stat"@) == 15671925956) by {
                reveal_strlit("stat");
            }
        },
        StaticStrings::ReadBytes => {
            assert(fingerprint("read_bytes"@) == 15538625674) by {
                reveal_strlit("read_bytes");
            }
        },
        StaticStrings::ReadText => {
            assert(fingerprint("read_text"@) == 15669697673) by {
                reveal_strlit("read_text");
            }
        },
        StaticStrings::Iterdir => {
            assert(fingerprint("iterdir"@) == 15421299271) by {
                reveal_strlit("iterdir");
            }
        },
        StaticStrings::Resolve => {
            assert(fingerprint("resolve"@) == 13673299079) by {
                reveal_strlit("resolve");
            }
        },
        _ => {},
    }
}

/// `lemma_fingerprint` for the ordinals from 160 to 179.
proof fn lemma_fingerprint_from_160(s: StaticStrings)
    requires
        160 <= s.ordinal() < 180,
    ensures
        ordinal_of_fingerprint(fingerprint(s.name())) == s.ordinal(),
{
    match s {
        StaticStrings::Absolute => {
            assert(fingerprint("absolute"@) == 13670152264) by {
                reveal_strlit("absolute");
            }
        },
        StaticStrings::WriteText => {
            assert(fingerprint("write_text"@) == 15669829066) by {
                reveal_strlit("write_text");
            }
        },
        StaticStrings::WriteBytes => {
            assert(fingerprint("write_bytes"@) == 15535611339) by {
                reveal_strlit("write_bytes");
            }
        },
        StaticStrings::Mkdir => {
            assert(fingerprint("mkdir"@) == 15406545733) by {
                reveal_strlit("mkdir");
            }
        },
        StaticStrings::Unlink => {
            assert(fingerprint("unlink"@) == 14472265030) by {
                reveal_strlit("unlink");
            }
        },
        StaticStrings::Rmdir => {
            assert(fingerprint("rmdir"@) == 15406546053) by {
                reveal_strlit("rmdir");
            }
        },
        StaticStrings::Rename => {
            assert(fingerprint("rename"@) == 13658504326) by {
                reveal_strlit("rename");
            }
        },
        StaticStrings::Start => {
            assert(fingerprint("start"@) == 15671909573) by {
                reveal_strlit("start");
            }
        },
        StaticStrings::Stop => {
            assert(fingerprint("stop"@) == 15149702340) by {
                reveal_strlit("stop");
            }
        },
        StaticStrings::Step => {
            assert(fingerprint("step"@) == 15139216580) by {
                reveal_strlit("step");
            }
        },
        StaticStrings::Re => {
            assert(fingerprint("re"@) == 13661904002) by {
                reveal_strlit("re");
            }
        },
        StaticStrings::Compile => {
            assert(fingerprint("compile"@) == 13674354887) by {
                reveal_strlit("compile");
            }
        },
        StaticStrings::Match => {
            assert(fingerprint("match"@) == 14081096517) by {
                reveal_strlit("match");
            }
        },
        StaticStrings::Search => {
            assert(fingerprint("search"@) == 14079122630) by {
                reveal_strlit("search");
            }
        },
        StaticStrings::Fullmatch => {
            assert(fingerprint("fullmatch"@) == 14073829769) by {
                reveal_strlit("fullmatch");
            }
        },
        StaticStrings::Findall => {
            assert(fingerprint("findall"@) == 14601197959) by {
                reveal_strlit("findall");
            }
        },
        StaticStrings::Sub => {
            assert(fingerprint("sub"@) == 13276028099) by {
                reveal_strlit("sub");
            }
        },
        StaticStrings::Group => {
            assert(fingerprint("group"@) == 15149742533) by {
                reveal_strlit("group");
            }
        },
        StaticStrings::Groups => {
            assert(fingerprint("groups"@) == 15558687174) by {
                reveal_strlit("groups");
            }
        },
        StaticStrings::Span => {
            assert(fingerprint("span"@) == 14866570436) by {
                reveal_strlit("span");
            }
        },
        _ => {},
    }
}

/// `lemma_fingerprint` for the ordinals from 180 to 199.
proof fn lemma_fingerprint_from_180(s: StaticStrings)
    requires
        180 <= s.ordinal() < 200,
    ensures
        ordinal_of_fingerprint(fingerprint(s.name())) == s.ordinal(),
{
    match s {
        StaticStrings::End => {
            assert(fingerprint("end"@) == 13537122627) by {
                reveal_strlit("end");
            }
        },
        StaticStrings::PatternClass => {
            assert(fingerprint("Pattern"@) == 14886540295) by {
                reveal_strlit("Pattern");
            }
        },
        StaticStrings::MatchClass => {
            assert(fingerprint("Match"@) == 14081094469) by {
                reveal_strlit("Match");
            }
        },
        StaticStrings::PatternAttr => {
            assert(fingerprint("pattern"@) == 14886542343) by {
                reveal_strlit("pattern");
            }
        },
        StaticStrings::StringAttr => {
            assert(fingerprint("string"@) == 13935393990) by {
                reveal_strlit("string");
            }
        },
        StaticStrings::Flags => {
            assert(fingerprint("flags"@) == 15537600901) by {
                reveal_strlit("flags");
            }
        },
        StaticStrings::Ignorecase => {
            assert(fingerprint("IGNORECASE"@) == 9334026826) by {
                reveal_strlit("IGNORECASE");
            }
        },
        StaticStrings::I => {
            assert(fingerprint("I"@) == 9874444865) by {
                reveal_strlit("I");
            }
        },
        StaticStrings::MultilineFlag => {
            assert(fingerprint("MULTILINE"@) == 9338262345) by {
                reveal_strlit("MULTILINE");
            }
        },
        StaticStrings::M => {
            assert(fingerprint("M"@) == 10415510337) by {
                reveal_strlit("M");
            }
        },
        StaticStrings::DotallFlag => {
            assert(fingerprint("DOTALL"@) == 10269241606) by {
                reveal_strlit("DOTALL");
            }
        },
        StaticStrings::S => {
            assert(fingerprint("S"@) == 11227108545) by {
                reveal_strlit("S");
            }
        },
        StaticStrings::NoFlag => {
            assert(fingerprint("NOFLAG"@) == 9609778054) by {
                reveal_strlit("NOFLAG");
            }
        },
        StaticStrings::AsciiFlag => {
            assert(fingerprint("ASCII"@) == 9868750917) by {
                reveal_strlit("ASCII");
            }
        },
        StaticStrings::A => {
            assert(fingerprint("A"@) == 8792313921) by {
                reveal_strlit("A");
            }
        },
        StaticStrings::PatternError => {
            assert(fingerprint("PatternError"@) == 15417119756) by {
                reveal_strlit("PatternError");
            }
        },
        StaticStrings::Error => {
            assert(fingerprint("error"@) == 15421274437) by {
                reveal_strlit("error");
            }
        },
        StaticStrings::Escape => {
            assert(fingerprint("escape"@) == 13658503494) by {
                reveal_strlit("escape");
            }
        },
        StaticStrings::Finditer => {
            assert(fingerprint("finditer"@) == 15411747208) by {
                reveal_strlit("finditer");
            }
        },
        StaticStrings::Groupdict => {
            assert(fingerprint("groupdict"@) == 15687662025) by {
                reveal_strlit("groupdict");
            }
        },
        _ => {},
    }
}

/// The fingerprint of a static string's text leads back to its ordinal.
proof fn lemma_fingerprint(s: StaticStrings)
    ensures
        ordinal_of_fingerprint(fingerprint(s.name())) == s.ordinal(),
{
    if s.ordinal() < 20 {
        lemma_fingerprint_from_0(s);
    } else if s.ordinal() < 40 {
        lemma_fingerprint_from_20(s);
    } else if s.ordinal() < 60 {
        lemma_fingerprint_from_40(s);
    } else if s.ordinal() < 80 {
        lemma_fingerprint_from_60(s);
    } else if s.ordinal() < 100 {
        lemma_fingerprint_from_80(s);
    } else if s.ordinal() < 120 {
        lemma_fingerprint_from_100(s);
    } else if s.ordinal() < 140 {
        lemma_fingerprint_from_120(s);
    } else if s.ordinal() < 160 {
        lemma_fingerprint_from_140(s);
    } else if s.ordinal() < 180 {
        lemma_fingerprint_from_160(s);
    } else if s.ordinal() < 200 {
        lemma_fingerprint_from_180(s);
    }
}

/// Two variants at the same position of the declaration are the same variant.
pub proof fn static_ordinals_are_distinct(a: StaticStrings, b: StaticStrings)
    requires
        a.ordinal() == b.ordinal(),
    ensures
        a == b,
{
}

/// Two variants with the same text are the same variant.
pub proof fn static_names_are_distinct(a: StaticStrings, b: StaticStrings)
    requires
        a.name() == b.name(),
    ensures
        a == b,
{
    lemma_fingerprint(a);
    lemma_fingerprint(b);
    static_ordinals_are_distinct(a, b);
}

} // verus!
