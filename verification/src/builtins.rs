//! The built-in modules: which functions each has, how many arguments they take and
//! which runtime symbol stands for them.

use crate::text::str_eq;
use vstd::prelude::*;

verus! {

/// A function of a built-in module.
#[derive(Debug, Clone, Copy)]
pub struct ModuleFn {
    pub module: &'static str,
    pub name: &'static str,
    pub arity: u8,
    pub symbol: &'static str,
}

pub struct ModuleFnView {
    pub module: Seq<char>,
    pub name: Seq<char>,
    pub arity: u8,
    pub symbol: Seq<char>,
}

impl View for ModuleFn {
    type V = ModuleFnView;

    open spec fn view(&self) -> ModuleFnView {
        ModuleFnView {
            module: self.module@,
            name: self.name@,
            arity: self.arity,
            symbol: self.symbol@,
        }
    }
}

pub open spec fn row(
    module: Seq<char>,
    name: Seq<char>,
    arity: u8,
    symbol: Seq<char>,
) -> ModuleFnView {
    ModuleFnView { module, name, arity, symbol }
}

/// How many functions the built-in modules have together.
pub const MODULE_FN_COUNT: usize = 115;

/// The table of the built-in functions.
#[verifier::opaque]
pub open spec fn table(i: int) -> ModuleFnView {
    if i == 0 {
        row("math"@, "sqrt"@, 1, "lumen_math_sqrt"@)
    } else if i == 1 {
        row("math"@, "sin"@, 1, "lumen_math_sin"@)
    } else if i == 2 {
        row("math"@, "cos"@, 1, "lumen_math_cos"@)
    } else if i == 3 {
        row("math"@, "tan"@, 1, "lumen_math_tan"@)
    } else if i == 4 {
        row("math"@, "abs"@, 1, "lumen_math_abs"@)
    } else if i == 5 {
        row("math"@, "floor"@, 1, "lumen_math_floor"@)
    } else if i == 6 {
        row("math"@, "ceil"@, 1, "lumen_math_ceil"@)
    } else if i == 7 {
        row("math"@, "pow"@, 2, "lumen_math_pow"@)
    } else if i == 8 {
        row("math"@, "log"@, 1, "lumen_math_log"@)
    } else if i == 9 {
        row("math"@, "log10"@, 1, "lumen_math_log10"@)
    } else if i == 10 {
        row("math"@, "exp"@, 1, "lumen_math_exp"@)
    } else if i == 11 {
        row("math"@, "pi"@, 0, "lumen_math_pi"@)
    } else if i == 12 {
        row("math"@, "e"@, 0, "lumen_math_e"@)
    } else if i == 13 {
        row("math"@, "tau"@, 0, "lumen_math_tau"@)
    } else if i == 14 {
        row("math"@, "inf"@, 0, "lumen_math_inf"@)
    } else if i == 15 {
        row("math"@, "log2"@, 1, "lumen_math_log2"@)
    } else if i == 16 {
        row("math"@, "cbrt"@, 1, "lumen_math_cbrt"@)
    } else if i == 17 {
        row("math"@, "asin"@, 1, "lumen_math_asin"@)
    } else if i == 18 {
        row("math"@, "acos"@, 1, "lumen_math_acos"@)
    } else if i == 19 {
        row("math"@, "atan"@, 1, "lumen_math_atan"@)
    } else if i == 20 {
        row("math"@, "atan2"@, 2, "lumen_math_atan2"@)
    } else if i == 21 {
        row("math"@, "sinh"@, 1, "lumen_math_sinh"@)
    } else if i == 22 {
        row("math"@, "cosh"@, 1, "lumen_math_cosh"@)
    } else if i == 23 {
        row("math"@, "tanh"@, 1, "lumen_math_tanh"@)
    } else if i == 24 {
        row("math"@, "hypot"@, 2, "lumen_math_hypot"@)
    } else if i == 25 {
        row("math"@, "round"@, 1, "lumen_math_round"@)
    } else if i == 26 {
        row("math"@, "trunc"@, 1, "lumen_math_trunc"@)
    } else if i == 27 {
        row("math"@, "min"@, 2, "lumen_math_min"@)
    } else if i == 28 {
        row("math"@, "max"@, 2, "lumen_math_max"@)
    } else if i == 29 {
        row("math"@, "sign"@, 1, "lumen_math_sign"@)
    } else if i == 30 {
        row("math"@, "deg"@, 1, "lumen_math_deg"@)
    } else if i == 31 {
        row("math"@, "rad"@, 1, "lumen_math_rad"@)
    } else if i == 32 {
        row("math"@, "isnan"@, 1, "lumen_math_isnan"@)
    } else if i == 33 {
        row("math"@, "isinf"@, 1, "lumen_math_isinf"@)
    } else if i == 34 {
        row("math"@, "gcd"@, 2, "lumen_math_gcd"@)
    } else if i == 35 {
        row("math"@, "lcm"@, 2, "lumen_math_lcm"@)
    } else if i == 36 {
        row("math"@, "factorial"@, 1, "lumen_math_factorial"@)
    } else if i == 37 {
        row("math"@, "fmod"@, 2, "lumen_math_fmod"@)
    } else if i == 38 {
        row("math"@, "copysign"@, 2, "lumen_math_copysign"@)
    } else if i == 39 {
        row("math"@, "log1p"@, 1, "lumen_math_log1p"@)
    } else if i == 40 {
        row("math"@, "expm1"@, 1, "lumen_math_expm1"@)
    } else if i == 41 {
        row("math"@, "isfinite"@, 1, "lumen_math_isfinite"@)
    } else if i == 42 {
        row("os"@, "read"@, 1, "lumen_os_read"@)
    } else if i == 43 {
        row("os"@, "write"@, 2, "lumen_os_write"@)
    } else if i == 44 {
        row("os"@, "append"@, 2, "lumen_os_append"@)
    } else if i == 45 {
        row("os"@, "exists"@, 1, "lumen_os_exists"@)
    } else if i == 46 {
        row("os"@, "is_file"@, 1, "lumen_os_is_file"@)
    } else if i == 47 {
        row("os"@, "is_dir"@, 1, "lumen_os_is_dir"@)
    } else if i == 48 {
        row("os"@, "remove"@, 1, "lumen_os_remove"@)
    } else if i == 49 {
        row("os"@, "rmdir"@, 1, "lumen_os_rmdir"@)
    } else if i == 50 {
        row("os"@, "rename"@, 2, "lumen_os_rename"@)
    } else if i == 51 {
        row("os"@, "mkdir"@, 1, "lumen_os_mkdir"@)
    } else if i == 52 {
        row("os"@, "listdir"@, 1, "lumen_os_listdir"@)
    } else if i == 53 {
        row("os"@, "getenv"@, 1, "lumen_os_getenv"@)
    } else if i == 54 {
        row("os"@, "setenv"@, 2, "lumen_os_setenv"@)
    } else if i == 55 {
        row("os"@, "cwd"@, 0, "lumen_os_cwd"@)
    } else if i == 56 {
        row("os"@, "time"@, 0, "lumen_os_time"@)
    } else if i == 57 {
        row("os"@, "clock"@, 0, "lumen_os_clock"@)
    } else if i == 58 {
        row("os"@, "getpid"@, 0, "lumen_os_getpid"@)
    } else if i == 59 {
        row("os"@, "sep"@, 0, "lumen_os_sep"@)
    } else if i == 60 {
        row("os"@, "platform"@, 0, "lumen_os_platform"@)
    } else if i == 61 {
        row("os"@, "system"@, 1, "lumen_os_system"@)
    } else if i == 62 {
        row("os"@, "exec"@, 1, "lumen_os_exec"@)
    } else if i == 63 {
        row("os"@, "exit"@, 1, "lumen_os_exit"@)
    } else if i == 64 {
        row("os"@, "args"@, 0, "lumen_os_args"@)
    } else if i == 65 {
        row("rand"@, "seed"@, 1, "lumen_rand_seed"@)
    } else if i == 66 {
        row("rand"@, "int"@, 2, "lumen_rand_int"@)
    } else if i == 67 {
        row("rand"@, "float"@, 0, "lumen_rand_float"@)
    } else if i == 68 {
        row("time"@, "now"@, 0, "lumen_time_now"@)
    } else if i == 69 {
        row("time"@, "format"@, 1, "lumen_time_format"@)
    } else if i == 70 {
        row("time"@, "sleep"@, 1, "lumen_time_sleep"@)
    } else if i == 71 {
        row("json"@, "stringify"@, 1, "lumen_json_stringify"@)
    } else if i == 72 {
        row("json"@, "parse"@, 1, "lumen_json_parse"@)
    } else if i == 73 {
        row("cffi"@, "cbuf"@, 1, "lumen_cbuf"@)
    } else if i == 74 {
        row("cffi"@, "len"@, 1, "lumen_cbuf_len"@)
    } else if i == 75 {
        row("cffi"@, "addr"@, 1, "lumen_cbuf_addr"@)
    } else if i == 76 {
        row("cffi"@, "set_i8"@, 3, "lumen_cset_i8"@)
    } else if i == 77 {
        row("cffi"@, "set_i16"@, 3, "lumen_cset_i16"@)
    } else if i == 78 {
        row("cffi"@, "set_i32"@, 3, "lumen_cset_i32"@)
    } else if i == 79 {
        row("cffi"@, "set_i64"@, 3, "lumen_cset_i64"@)
    } else if i == 80 {
        row("cffi"@, "set_ptr"@, 3, "lumen_cset_ptr"@)
    } else if i == 81 {
        row("cffi"@, "set_f32"@, 3, "lumen_cset_f32"@)
    } else if i == 82 {
        row("cffi"@, "set_f64"@, 3, "lumen_cset_f64"@)
    } else if i == 83 {
        row("cffi"@, "get_i8"@, 2, "lumen_cget_i8"@)
    } else if i == 84 {
        row("cffi"@, "get_i16"@, 2, "lumen_cget_i16"@)
    } else if i == 85 {
        row("cffi"@, "get_i32"@, 2, "lumen_cget_i32"@)
    } else if i == 86 {
        row("cffi"@, "get_i64"@, 2, "lumen_cget_i64"@)
    } else if i == 87 {
        row("cffi"@, "get_ptr"@, 2, "lumen_cget_ptr"@)
    } else if i == 88 {
        row("cffi"@, "get_f32"@, 2, "lumen_cget_f32"@)
    } else if i == 89 {
        row("cffi"@, "get_f64"@, 2, "lumen_cget_f64"@)
    } else if i == 90 {
        row("cffi"@, "vcall"@, 4, "lumen_com_vcall"@)
    } else if i == 91 {
        row("cffi"@, "peek_i64"@, 1, "lumen_peek_i64"@)
    } else if i == 92 {
        row("cffi"@, "poke_i64"@, 2, "lumen_poke_i64"@)
    } else if i == 93 {
        row("cffi"@, "peek_i32"@, 1, "lumen_peek_i32"@)
    } else if i == 94 {
        row("cffi"@, "poke_i32"@, 2, "lumen_poke_i32"@)
    } else if i == 95 {
        row("cffi"@, "str_ptr"@, 1, "lumen_str_ptr"@)
    } else if i == 96 {
        row("cffi"@, "guid"@, 1, "lumen_guid"@)
    } else if i == 97 {
        row("cffi"@, "callback"@, 1, "lumen_cb_register"@)
    } else if i == 98 {
        row("net"@, "listen"@, 2, "lumen_net_listen"@)
    } else if i == 99 {
        row("net"@, "accept"@, 1, "lumen_net_accept"@)
    } else if i == 100 {
        row("net"@, "connect"@, 2, "lumen_net_connect"@)
    } else if i == 101 {
        row("net"@, "udp"@, 2, "lumen_net_udp"@)
    } else if i == 102 {
        row("net"@, "send"@, 2, "lumen_net_send"@)
    } else if i == 103 {
        row("net"@, "recv"@, 2, "lumen_net_recv"@)
    } else if i == 104 {
        row("net"@, "sendto"@, 4, "lumen_net_sendto"@)
    } else if i == 105 {
        row("net"@, "recvfrom"@, 2, "lumen_net_recvfrom"@)
    } else if i == 106 {
        row("net"@, "close"@, 1, "lumen_net_close"@)
    } else if i == 107 {
        row("net"@, "shutdown"@, 2, "lumen_net_shutdown"@)
    } else if i == 108 {
        row("net"@, "set_timeout"@, 2, "lumen_net_set_timeout"@)
    } else if i == 109 {
        row("net"@, "set_blocking"@, 2, "lumen_net_set_blocking"@)
    } else if i == 110 {
        row("net"@, "set_opt"@, 3, "lumen_net_set_opt"@)
    } else if i == 111 {
        row("net"@, "poll"@, 2, "lumen_net_poll"@)
    } else if i == 112 {
        row("net"@, "resolve"@, 1, "lumen_net_resolve"@)
    } else if i == 113 {
        row("net"@, "local_port"@, 1, "lumen_net_local_port"@)
    } else {
        row("net"@, "errno"@, 0, "lumen_net_errno"@)
    }
}

fn mf(module: &'static str, name: &'static str, arity: u8, symbol: &'static str) -> (r: ModuleFn)
    ensures
        r@ == row(module@, name@, arity, symbol@),
{
    ModuleFn { module, name, arity, symbol }
}

/// The `i`-th function of the table.
pub fn module_fn(i: usize) -> (r: ModuleFn)
    requires
        i < MODULE_FN_COUNT,
    ensures
        r@ == table(i as int),
{
    proof {
        reveal(table);
    }
    match i {
        0 => mf("math", "sqrt", 1, "lumen_math_sqrt"),
        1 => mf("math", "sin", 1, "lumen_math_sin"),
        2 => mf("math", "cos", 1, "lumen_math_cos"),
        3 => mf("math", "tan", 1, "lumen_math_tan"),
        4 => mf("math", "abs", 1, "lumen_math_abs"),
        5 => mf("math", "floor", 1, "lumen_math_floor"),
        6 => mf("math", "ceil", 1, "lumen_math_ceil"),
        7 => mf("math", "pow", 2, "lumen_math_pow"),
        8 => mf("math", "log", 1, "lumen_math_log"),
        9 => mf("math", "log10", 1, "lumen_math_log10"),
        10 => mf("math", "exp", 1, "lumen_math_exp"),
        11 => mf("math", "pi", 0, "lumen_math_pi"),
        12 => mf("math", "e", 0, "lumen_math_e"),
        13 => mf("math", "tau", 0, "lumen_math_tau"),
        14 => mf("math", "inf", 0, "lumen_math_inf"),
        15 => mf("math", "log2", 1, "lumen_math_log2"),
        16 => mf("math", "cbrt", 1, "lumen_math_cbrt"),
        17 => mf("math", "asin", 1, "lumen_math_asin"),
        18 => mf("math", "acos", 1, "lumen_math_acos"),
        19 => mf("math", "atan", 1, "lumen_math_atan"),
        20 => mf("math", "atan2", 2, "lumen_math_atan2"),
        21 => mf("math", "sinh", 1, "lumen_math_sinh"),
        22 => mf("math", "cosh", 1, "lumen_math_cosh"),
        23 => mf("math", "tanh", 1, "lumen_math_tanh"),
        24 => mf("math", "hypot", 2, "lumen_math_hypot"),
        25 => mf("math", "round", 1, "lumen_math_round"),
        26 => mf("math", "trunc", 1, "lumen_math_trunc"),
        27 => mf("math", "min", 2, "lumen_math_min"),
        28 => mf("math", "max", 2, "lumen_math_max"),
        29 => mf("math", "sign", 1, "lumen_math_sign"),
        30 => mf("math", "deg", 1, "lumen_math_deg"),
        31 => mf("math", "rad", 1, "lumen_math_rad"),
        32 => mf("math", "isnan", 1, "lumen_math_isnan"),
        33 => mf("math", "isinf", 1, "lumen_math_isinf"),
        34 => mf("math", "gcd", 2, "lumen_math_gcd"),
        35 => mf("math", "lcm", 2, "lumen_math_lcm"),
        36 => mf("math", "factorial", 1, "lumen_math_factorial"),
        37 => mf("math", "fmod", 2, "lumen_math_fmod"),
        38 => mf("math", "copysign", 2, "lumen_math_copysign"),
        39 => mf("math", "log1p", 1, "lumen_math_log1p"),
        40 => mf("math", "expm1", 1, "lumen_math_expm1"),
        41 => mf("math", "isfinite", 1, "lumen_math_isfinite"),
        42 => mf("os", "read", 1, "lumen_os_read"),
        43 => mf("os", "write", 2, "lumen_os_write"),
        44 => mf("os", "append", 2, "lumen_os_append"),
        45 => mf("os", "exists", 1, "lumen_os_exists"),
        46 => mf("os", "is_file", 1, "lumen_os_is_file"),
        47 => mf("os", "is_dir", 1, "lumen_os_is_dir"),
        48 => mf("os", "remove", 1, "lumen_os_remove"),
        49 => mf("os", "rmdir", 1, "lumen_os_rmdir"),
        50 => mf("os", "rename", 2, "lumen_os_rename"),
        51 => mf("os", "mkdir", 1, "lumen_os_mkdir"),
        52 => mf("os", "listdir", 1, "lumen_os_listdir"),
        53 => mf("os", "getenv", 1, "lumen_os_getenv"),
        54 => mf("os", "setenv", 2, "lumen_os_setenv"),
        55 => mf("os", "cwd", 0, "lumen_os_cwd"),
        56 => mf("os", "time", 0, "lumen_os_time"),
        57 => mf("os", "clock", 0, "lumen_os_clock"),
        58 => mf("os", "getpid", 0, "lumen_os_getpid"),
        59 => mf("os", "sep", 0, "lumen_os_sep"),
        60 => mf("os", "platform", 0, "lumen_os_platform"),
        61 => mf("os", "system", 1, "lumen_os_system"),
        62 => mf("os", "exec", 1, "lumen_os_exec"),
        63 => mf("os", "exit", 1, "lumen_os_exit"),
        64 => mf("os", "args", 0, "lumen_os_args"),
        65 => mf("rand", "seed", 1, "lumen_rand_seed"),
        66 => mf("rand", "int", 2, "lumen_rand_int"),
        67 => mf("rand", "float", 0, "lumen_rand_float"),
        68 => mf("time", "now", 0, "lumen_time_now"),
        69 => mf("time", "format", 1, "lumen_time_format"),
        70 => mf("time", "sleep", 1, "lumen_time_sleep"),
        71 => mf("json", "stringify", 1, "lumen_json_stringify"),
        72 => mf("json", "parse", 1, "lumen_json_parse"),
        73 => mf("cffi", "cbuf", 1, "lumen_cbuf"),
        74 => mf("cffi", "len", 1, "lumen_cbuf_len"),
        75 => mf("cffi", "addr", 1, "lumen_cbuf_addr"),
        76 => mf("cffi", "set_i8", 3, "lumen_cset_i8"),
        77 => mf("cffi", "set_i16", 3, "lumen_cset_i16"),
        78 => mf("cffi", "set_i32", 3, "lumen_cset_i32"),
        79 => mf("cffi", "set_i64", 3, "lumen_cset_i64"),
        80 => mf("cffi", "set_ptr", 3, "lumen_cset_ptr"),
        81 => mf("cffi", "set_f32", 3, "lumen_cset_f32"),
        82 => mf("cffi", "set_f64", 3, "lumen_cset_f64"),
        83 => mf("cffi", "get_i8", 2, "lumen_cget_i8"),
        84 => mf("cffi", "get_i16", 2, "lumen_cget_i16"),
        85 => mf("cffi", "get_i32", 2, "lumen_cget_i32"),
        86 => mf("cffi", "get_i64", 2, "lumen_cget_i64"),
        87 => mf("cffi", "get_ptr", 2, "lumen_cget_ptr"),
        88 => mf("cffi", "get_f32", 2, "lumen_cget_f32"),
        89 => mf("cffi", "get_f64", 2, "lumen_cget_f64"),
        90 => mf("cffi", "vcall", 4, "lumen_com_vcall"),
        91 => mf("cffi", "peek_i64", 1, "lumen_peek_i64"),
        92 => mf("cffi", "poke_i64", 2, "lumen_poke_i64"),
        93 => mf("cffi", "peek_i32", 1, "lumen_peek_i32"),
        94 => mf("cffi", "poke_i32", 2, "lumen_poke_i32"),
        95 => mf("cffi", "str_ptr", 1, "lumen_str_ptr"),
        96 => mf("cffi", "guid", 1, "lumen_guid"),
        97 => mf("cffi", "callback", 1, "lumen_cb_register"),
        98 => mf("net", "listen", 2, "lumen_net_listen"),
        99 => mf("net", "accept", 1, "lumen_net_accept"),
        100 => mf("net", "connect", 2, "lumen_net_connect"),
        101 => mf("net", "udp", 2, "lumen_net_udp"),
        102 => mf("net", "send", 2, "lumen_net_send"),
        103 => mf("net", "recv", 2, "lumen_net_recv"),
        104 => mf("net", "sendto", 4, "lumen_net_sendto"),
        105 => mf("net", "recvfrom", 2, "lumen_net_recvfrom"),
        106 => mf("net", "close", 1, "lumen_net_close"),
        107 => mf("net", "shutdown", 2, "lumen_net_shutdown"),
        108 => mf("net", "set_timeout", 2, "lumen_net_set_timeout"),
        109 => mf("net", "set_blocking", 2, "lumen_net_set_blocking"),
        110 => mf("net", "set_opt", 3, "lumen_net_set_opt"),
        111 => mf("net", "poll", 2, "lumen_net_poll"),
        112 => mf("net", "resolve", 1, "lumen_net_resolve"),
        113 => mf("net", "local_port", 1, "lumen_net_local_port"),
        _ => mf("net", "errno", 0, "lumen_net_errno"),
    }
}

/// Whether some function of the table belongs to `name`.
pub open spec fn is_module_spec(name: Seq<char>) -> bool {
    exists|i: int| 0 <= i < MODULE_FN_COUNT && (#[trigger] table(i)).module == name
}

/// Whether `name` is a built-in module.
pub fn is_module(name: &str) -> (r: bool)
    ensures
        r == is_module_spec(name@),
{
    for i in 0..MODULE_FN_COUNT
        invariant
            forall|k: int| 0 <= k < i ==> (#[trigger] table(k)).module != name@,
    {
        let f = module_fn(i);
        if str_eq(f.module, name) {
            return true;
        }
    }
    false
}

/// Whether the `i`-th function of the table is `module.name`.
pub open spec fn is_entry(i: int, module: Seq<char>, name: Seq<char>) -> bool {
    table(i).module == module && table(i).name == name
}

/// The first function of the table that is `module.name`, if there is one.
pub open spec fn lookup_spec(module: Seq<char>, name: Seq<char>, from: int) -> Option<ModuleFnView>
    decreases MODULE_FN_COUNT - from,
{
    if from >= MODULE_FN_COUNT {
        None
    } else if is_entry(from, module, name) {
        Some(table(from))
    } else {
        lookup_spec(module, name, from + 1)
    }
}

/// The built-in function `module.name`, if there is one.
pub fn lookup(module: &str, name: &str) -> (r: Option<ModuleFn>)
    ensures
        r is Some <==> lookup_spec(module@, name@, 0) is Some,
        r is Some ==> lookup_spec(module@, name@, 0) == Some(r->Some_0@),
{
    for i in 0..MODULE_FN_COUNT
        invariant
            lookup_spec(module@, name@, 0) == lookup_spec(module@, name@, i as int),
    {
        let f = module_fn(i);
        if str_eq(f.module, module) && str_eq(f.name, name) {
            return Some(f);
        }
    }
    None
}

/// What is found belongs to a built-in module and has the name that was asked for.
pub proof fn lookup_finds_entry(module: Seq<char>, name: Seq<char>, from: int)
    requires
        0 <= from,
    ensures
        match lookup_spec(module, name, from) {
            Some(f) => f.module == module && f.name == name && is_module_spec(module),
            None => forall|i: int| from <= i < MODULE_FN_COUNT ==> !is_entry(i, module, name),
        },
    decreases MODULE_FN_COUNT - from,
{
    if from < MODULE_FN_COUNT {
        if is_entry(from, module, name) {
            assert(table(from).module == module);
        } else {
            lookup_finds_entry(module, name, from + 1);
        }
    }
}

} // verus!
