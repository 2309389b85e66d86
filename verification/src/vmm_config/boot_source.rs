//! The kernel command line.

use linux_loader::cmdline::{Cmdline, Error};
use vm_memory::GuestAddress;
use vstd::prelude::*;

use crate::utils::text::{decimal, hexadecimal, join2};

verus! {

#[verifier::external_type_specification]
#[verifier::external_body]
pub struct ExCmdline(Cmdline);

/// The arguments of the kernel that a command line holds, byte by byte: each element stands for one
/// byte of the text, so that the length is the number of bytes. What is put on a command line here
/// is of seven bits, where a byte is a character.
pub uninterp spec fn boot_args(c: Cmdline) -> Seq<char>;

/// The arguments of the init process that a command line holds, byte by byte as well.
pub uninterp spec fn init_args(c: Cmdline) -> Seq<char>;

/// The longest text in bytes, with a byte for its end, that a command line was made to hold.
pub uninterp spec fn capacity(c: Cmdline) -> nat;

/// Why text cannot be put on a command line.
#[derive(Debug, Clone, Copy, PartialEq, Eq, Structural)]
pub enum CmdlineError {
    /// The command line would become too long.
    TooLarge,
    /// A device has no size.
    MmioSize,
    /// The text is no argument.
    InvalidText,
}

/// Whether two command lines hold the same.
pub open spec fn same_text(a: Cmdline, b: Cmdline) -> bool {
    &&& boot_args(a) == boot_args(b)
    &&& init_args(a) == init_args(b)
    &&& capacity(a) == capacity(b)
}

/// `Cmdline::clone` gives a command line that holds the same.
#[verifier::external_body]
pub(crate) fn cmdline_clone(c: &Cmdline) -> (r: Cmdline)
    ensures
        boot_args(r) == boot_args(*c),
        init_args(r) == init_args(*c),
        capacity(r) == capacity(*c),
{
    c.clone()
}

/// Whether a character is printable and of seven bits.
pub open spec fn printable_char(c: char) -> bool {
    ' ' as u32 <= c as u32 <= '~' as u32
}

/// Whether all characters are printable and of seven bits.
pub open spec fn printable(s: Seq<char>) -> bool {
    forall|i: int| 0 <= i < s.len() ==> printable_char(#[trigger] s[i])
}

/// Whether a character is white space.
pub open spec fn white(c: char) -> bool {
    let n = c as u32;
    ||| 0x9 <= n <= 0xd
    ||| n == 0x20
    ||| n == 0x85
    ||| n == 0xa0
    ||| n == 0x1680
    ||| 0x2000 <= n <= 0x200a
    ||| n == 0x2028
    ||| n == 0x2029
    ||| n == 0x202f
    ||| n == 0x205f
    ||| n == 0x3000
}

/// Text without the white space at both ends.
pub open spec fn trimmed(s: Seq<char>) -> Seq<char>
    decreases s.len(),
{
    if s.len() == 0 {
        s
    } else if white(s[0]) {
        trimmed(s.skip(1))
    } else if white(s.last()) {
        trimmed(s.drop_last())
    } else {
        s
    }
}

/// The length of a command line, with a byte for its end.
pub open spec fn text_len(c: Cmdline) -> nat {
    boot_args(c).len() + 1 + if init_args(c).len() > 0 {
        4 + init_args(c).len()
    } else {
        0
    }
}

/// The arguments of the kernel with another one behind them.
pub open spec fn with_arg(args: Seq<char>, arg: Seq<char>) -> Seq<char> {
    if args.len() > 0 {
        args.push(' ') + arg
    } else {
        arg
    }
}

/// Whether a command line takes another argument.
pub open spec fn takes(c: Cmdline, arg: Seq<char>) -> bool {
    text_len(c) + arg.len() + (if boot_args(c).len() > 0 {
        1int
    } else {
        0
    }) <= capacity(c)
}

/// What comes of putting an argument behind the others: it is there, or the command line would
/// become too long and stays as it is.
pub open spec fn inserted(
    before: Cmdline,
    after: Cmdline,
    arg: Seq<char>,
    r: Result<(), CmdlineError>,
) -> bool {
    if takes(before, arg) {
        &&& r is Ok
        &&& boot_args(after) == with_arg(boot_args(before), arg)
        &&& init_args(after) == init_args(before)
        &&& capacity(after) == capacity(before)
    } else {
        &&& r is Err
        &&& r->Err_0 == CmdlineError::TooLarge
        &&& same_text(before, after)
    }
}

/// What comes of putting text behind the arguments: white space at its ends is left out, and what
/// is left must be printable.
pub open spec fn put(
    before: Cmdline,
    after: Cmdline,
    slug: Seq<char>,
    r: Result<(), CmdlineError>,
) -> bool {
    if printable(trimmed(slug)) {
        inserted(before, after, trimmed(slug), r)
    } else {
        r is Err && r->Err_0 == CmdlineError::InvalidText && same_text(before, after)
    }
}

/// `Cmdline::insert_str` puts text, without the white space at its ends, behind the arguments of
/// the kernel, after a blank where there are some. It refuses text with other than printable
/// characters and text that makes the command line too long. A refusal changes nothing.
#[verifier::external_body]
pub(crate) fn cmdline_insert_str(c: &mut Cmdline, slug: &str) -> (r: Result<(), CmdlineError>)
    ensures
        put(*old(c), *final(c), slug@, r),
{
    match c.insert_str(slug) {
        Ok(()) => Ok(()),
        Err(Error::TooLarge) => Err(CmdlineError::TooLarge),
        Err(_) => Err(CmdlineError::InvalidText),
    }
}

/// Whether text can be the name of an argument with a value: it has no blank and no equals sign.
pub open spec fn plain_key(s: Seq<char>) -> bool {
    printable(s) && !s.contains(' ') && !s.contains('=')
}

/// Whether text can be the value of an argument as it is: it has no blank and no double quote.
pub open spec fn plain_value(s: Seq<char>) -> bool {
    printable(s) && !s.contains(' ') && !s.contains('"')
}

/// `Cmdline::insert` puts a name, an equals sign and a value behind the arguments of the kernel, as
/// `Cmdline::insert_str` does. What comes of other than plain names and values is not said.
#[verifier::external_body]
pub(crate) fn cmdline_insert(c: &mut Cmdline, key: &str, val: &str) -> (r: Result<(), CmdlineError>)
    ensures
        plain_key(key@) && plain_value(val@) ==> inserted(
            *old(c),
            *final(c),
            key@ + seq!['='] + val@,
            r,
        ),
        r is Err ==> same_text(*old(c), *final(c)),
{
    match c.insert(key, val) {
        Ok(()) => Ok(()),
        Err(Error::TooLarge) => Err(CmdlineError::TooLarge),
        Err(_) => Err(CmdlineError::InvalidText),
    }
}

/// A size with the largest unit that divides it.
pub open spec fn size_text(size: nat) -> Seq<char> {
    if size % 0x4000_0000 == 0 {
        decimal(size / 0x4000_0000).push('G')
    } else if size % 0x10_0000 == 0 {
        decimal(size / 0x10_0000).push('M')
    } else if size % 0x400 == 0 {
        decimal(size / 0x400).push('K')
    } else {
        decimal(size)
    }
}

/// The argument by which the kernel learns of a device behind memory.
pub open spec fn mmio_device_arg(size: u64, addr: u64, irq: u32) -> Seq<char> {
    "virtio_mmio.device="@ + size_text(size as nat) + "@0x"@ + hexadecimal(addr as nat) + ":"@
        + decimal(irq as nat)
}

/// `Cmdline::add_virtio_mmio_device` puts the argument that names a device behind the arguments of
/// the kernel, as `Cmdline::insert_str` does. It refuses a device without a size.
#[verifier::external_body]
pub(crate) fn cmdline_add_virtio_mmio_device(c: &mut Cmdline, size: u64, addr: u64, irq: u32) -> (r:
    Result<(), CmdlineError>)
    ensures
        size == 0 ==> r is Err && r->Err_0 == CmdlineError::MmioSize && same_text(*old(c), *final(c)),
        size != 0 ==> inserted(*old(c), *final(c), mmio_device_arg(size, addr, irq), r),
{
    match c.add_virtio_mmio_device(size, GuestAddress(addr), irq, None) {
        Ok(()) => Ok(()),
        Err(Error::TooLarge) => Err(CmdlineError::TooLarge),
        Err(Error::MmioSize) => Err(CmdlineError::MmioSize),
        Err(_) => Err(CmdlineError::InvalidText),
    }
}

/// What is on a command line stays at its front when an argument is put behind it.
pub proof fn law_arguments_stay(
    before: Cmdline,
    after: Cmdline,
    arg: Seq<char>,
    r: Result<(), CmdlineError>,
)
    requires
        inserted(before, after, arg, r),
        boot_args(before).len() > 0 ==> text_len(before) <= capacity(before),
    ensures
        boot_args(before).is_prefix_of(boot_args(after)),
        init_args(after) == init_args(before),
        boot_args(after).len() > 0 && boot_args(before).len() > 0 ==> text_len(after) <= capacity(
            after,
        ),
{
}

/// The argument that names the root device.
pub open spec fn root_arg(partuuid: Option<Seq<char>>) -> Seq<char> {
    match partuuid {
        Some(p) => "root=PARTUUID="@ + p,
        None => "root=/dev/vda"@,
    }
}

/// The argument that says whether the root device can be written.
pub open spec fn access_arg(read_only: bool) -> Seq<char> {
    if read_only {
        "ro"@
    } else {
        "rw"@
    }
}

/// What comes of putting two arguments behind the others: the second one only where there is room
/// for the first.
pub open spec fn inserted_both(
    before: Cmdline,
    after: Cmdline,
    first: Seq<char>,
    second: Seq<char>,
    r: Result<(), CmdlineError>,
) -> bool {
    let args = with_arg(boot_args(before), first);
    let room = capacity(before) - (text_len(before) - boot_args(before).len());
    if !takes(before, first) {
        r is Err && r->Err_0 == CmdlineError::TooLarge && same_text(before, after)
    } else if with_arg(args, second).len() > room {
        &&& r is Err
        &&& r->Err_0 == CmdlineError::TooLarge
        &&& boot_args(after) == args
        &&& init_args(after) == init_args(before)
        &&& capacity(after) == capacity(before)
    } else {
        &&& r is Ok
        &&& boot_args(after) == with_arg(args, second)
        &&& init_args(after) == init_args(before)
        &&& capacity(after) == capacity(before)
    }
}

/// What comes of telling the kernel of its root device, by one argument that names it and another
/// one that says whether it can be written.
pub open spec fn root_named(
    before: Cmdline,
    after: Cmdline,
    root: Seq<char>,
    read_only: bool,
    r: Result<(), CmdlineError>,
) -> bool {
    if printable(trimmed(root)) {
        inserted_both(before, after, trimmed(root), access_arg(read_only), r)
    } else {
        r is Err && r->Err_0 == CmdlineError::InvalidText && same_text(before, after)
    }
}

proof fn lemma_access_arg(read_only: bool)
    ensures
        printable(access_arg(read_only)),
        trimmed(access_arg(read_only)) == access_arg(read_only),
{
    reveal_strlit("ro");
    reveal_strlit("rw");
}

/// Tells the kernel of its root device, by an argument that names it.
pub(crate) fn append_root(cmdline: &mut Cmdline, root: &str, read_only: bool) -> (r: Result<
    (),
    CmdlineError,
>)
    requires
        trimmed(root@).len() > 0,
    ensures
        root_named(*old(cmdline), *final(cmdline), root@, read_only, r),
{
    match cmdline_insert_str(cmdline, root) {
        Ok(()) => {},
        Err(e) => {
            return Err(e);
        },
    }
    proof {
        lemma_access_arg(read_only);
    }
    if read_only {
        cmdline_insert_str(cmdline, "ro")
    } else {
        cmdline_insert_str(cmdline, "rw")
    }
}

/// Text that starts with something else than white space is not trimmed to nothing.
pub proof fn lemma_some_is_left(s: Seq<char>)
    requires
        s.len() > 0,
        !white(s[0]),
    ensures
        trimmed(s).len() > 0,
    decreases s.len(),
{
    if white(s.last()) {
        assert(s.drop_last()[0] == s[0]);
        lemma_some_is_left(s.drop_last());
    }
}

/// Names a block device as the root device.
pub fn append_root_device_cmdline(
    cmdline: &mut Cmdline,
    partuuid: Option<&str>,
    read_only: bool,
) -> (r: Result<(), CmdlineError>)
    ensures
        root_named(
            *old(cmdline),
            *final(cmdline),
            root_arg(
                match partuuid {
                    Some(p) => Some(p@),
                    None => None,
                },
            ),
            read_only,
            r,
        ),
{
    match partuuid {
        Some(p) => {
            let root = join2("root=PARTUUID=", p);
            proof {
                reveal_strlit("root=PARTUUID=");
                lemma_some_is_left(root@);
            }
            append_root(cmdline, root.as_str(), read_only)
        },
        None => {
            proof {
                reveal_strlit("root=/dev/vda");
                lemma_some_is_left("root=/dev/vda"@);
            }
            append_root(cmdline, "root=/dev/vda", read_only)
        },
    }
}

/// Configuration of what the guest boots.
#[derive(Debug)]
pub struct BootSourceConfig {
    /// Path of the kernel.
    pub kernel_image_path: String,
    /// Path of the initial file system.
    pub initrd_path: Option<String>,
    /// Arguments of the kernel.
    pub boot_args: Option<String>,
}

impl BootSourceConfig {
    /// A copy.
    pub fn copied(&self) -> (r: BootSourceConfig)
        ensures
            r == *self,
    {
        BootSourceConfig {
            kernel_image_path: self.kernel_image_path.clone(),
            initrd_path: self.initrd_path.clone(),
            boot_args: self.boot_args.clone(),
        }
    }
}

/// The text that the kernel command line starts from: what the user gave, or else a default.
pub open spec fn first_text(boot_args: Option<String>, default_cmdline: Seq<char>) -> Seq<char> {
    match boot_args {
        Some(args) => args@,
        None => default_cmdline,
    }
}

/// The text that the kernel command line starts from. What the user gave counts even where it is
/// empty.
pub fn cmdline_text(boot_args: &Option<String>, default_cmdline: &str) -> (r: String)
    ensures
        r@ == first_text(*boot_args, default_cmdline@),
{
    match boot_args {
        Some(args) => args.clone(),
        None => String::from_str(default_cmdline),
    }
}

/// Why a boot source is refused.
#[derive(Debug, Clone, Copy, PartialEq, Eq, Structural)]
pub enum BootSourceConfigError {
    /// The kernel cannot be opened.
    InvalidKernelPath,
    /// The initial file system cannot be opened.
    InvalidInitrdPath,
    /// The arguments are not valid.
    InvalidKernelCommandLine,
}

/// What the guest boots.
#[derive(Debug)]
pub struct BootSource {
    /// Configuration.
    pub config: BootSourceConfig,
    /// Whether the kernel is ready.
    pub has_builder: bool,
}

/// The root device is named at the end of the command line, with how it is mounted behind it: by its
/// partition if that is given, else as the first disk.
pub proof fn law_root_ends_the_command_line(
    before: Cmdline,
    after: Cmdline,
    partuuid: Option<Seq<char>>,
    read_only: bool,
    r: Result<(), CmdlineError>,
)
    requires
        root_named(before, after, root_arg(partuuid), read_only, r),
        r is Ok,
        boot_args(before).len() > 0,
        trimmed(root_arg(partuuid)) == root_arg(partuuid),
        root_arg(partuuid).len() > 0,
    ensures
        boot_args(after) =~= boot_args(before) + seq![' '] + (if partuuid is Some {
            "root=PARTUUID="@ + partuuid->0
        } else {
            "root=/dev/vda"@
        }) + seq![' '] + (if read_only {
            "ro"@
        } else {
            "rw"@
        }),
        init_args(after) == init_args(before),
{
    let first = root_arg(partuuid);
    let args = with_arg(boot_args(before), first);
    assert(args =~= boot_args(before) + seq![' '] + first);
    assert(args.len() > 0);
    assert(with_arg(args, access_arg(read_only)) =~= args + seq![' '] + access_arg(read_only));
}

proof fn lemma_trimmed_ends(s: Seq<char>)
    ensures
        trimmed(s).len() > 0 ==> !white(trimmed(s)[0]) && !white(trimmed(s).last()),
        trimmed(s).len() <= s.len(),
    decreases s.len(),
{
    if s.len() > 0 && white(s[0]) {
        lemma_trimmed_ends(s.skip(1));
    } else if s.len() > 0 && white(s.last()) {
        lemma_trimmed_ends(s.drop_last());
    }
}

/// Text that is put on the command line stands behind all that was there, after one blank and without
/// white space at its ends. Text that is not printable is refused, and so is text that is too long.
pub proof fn law_text_is_put_behind(
    before: Cmdline,
    after: Cmdline,
    slug: Seq<char>,
    r: Result<(), CmdlineError>,
)
    requires
        put(before, after, slug, r),
        boot_args(before).len() > 0,
    ensures
        r is Ok ==> exists|text: Seq<char>|
            {
                &&& #[trigger] (boot_args(before) + seq![' '] + text) == boot_args(after)
                &&& text.len() <= slug.len()
                &&& text.len() > 0 ==> !white(text[0]) && !white(text.last())
                &&& slug.len() > 0 && !white(slug[0]) && !white(slug.last()) ==> text == slug
                &&& printable(text)
            },
        r is Err ==> boot_args(after) == boot_args(before) && (r->Err_0 == CmdlineError::InvalidText
            || r->Err_0 == CmdlineError::TooLarge),
        init_args(after) == init_args(before),
{
    lemma_trimmed_ends(slug);
    if r is Ok {
        assert(boot_args(before) + seq![' '] + trimmed(slug) =~= boot_args(after));
    }
}

/// The command line starts from what the user gave, and from a default only where that is nothing.
pub proof fn law_own_arguments_come_first(boot_args: Option<String>, a: Seq<char>, b: Seq<char>)
    ensures
        boot_args is Some ==> first_text(boot_args, a) == first_text(boot_args, b),
        boot_args matches Some(args) ==> first_text(boot_args, a) == args@,
        first_text(None, a) == a,
{
}

} // verus!
