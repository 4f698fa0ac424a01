//! The symbols of the built-in functions are all different.

use crate::builtins::{
    is_entry, is_module_spec, lookup_finds_entry, lookup_spec, table, MODULE_FN_COUNT,
};
use vstd::prelude::*;

verus! {

/// The code of a character of a text, 0 where the text is too short.
pub open spec fn code_at(s: Seq<char>, i: int) -> int {
    if 0 <= i < s.len() {
        s[i] as int
    } else {
        0
    }
}

/// A number that tells the symbols apart: made of the length and of four characters.
pub open spec fn mark(s: Seq<char>) -> int {
    (((s.len() * 128 + code_at(s, 7)) * 128 + code_at(s, 9)) * 128 + code_at(s, s.len() - 1)) * 128
        + code_at(s, s.len() - 3)
}

/// The place in the table of the function whose symbol has a mark.
pub open spec fn place_of(k: int) -> int {
    if k == 4_231_674_481 {
        0
    } else if k == 3_963_238_259 {
        1
    } else if k == 3_963_238_883 {
        2
    } else if k == 3_963_238_260 {
        3
    } else if k == 3_963_238_881 {
        4
    } else if k == 4_500_109_679 {
        5
    } else if k == 4_231_673_445 {
        6
    } else if k == 3_963_239_408 {
        7
    } else if k == 3_963_237_356 {
        8
    } else if k == 4_500_101_223 {
        9
    } else if k == 3_963_238_501 {
        10
    } else if k == 3_694_802_143 {
        11
    } else if k == 3_426_366_184 {
        12
    } else if k == 3_963_239_156 {
        13
    } else if k == 3_963_237_225 {
        14
    } else if k == 4_231_666_031 {
        15
    } else if k == 4_231_674_466 {
        16
    } else if k == 4_231_673_715 {
        17
    } else if k == 4_231_674_339 {
        18
    } else if k == 4_231_673_716 {
        19
    } else if k == 4_500_101_473 {
        20
    } else if k == 4_231_672_937 {
        21
    } else if k == 4_231_672_943 {
        22
    } else if k == 4_231_672_929 {
        23
    } else if k == 4_500_109_936 {
        24
    } else if k == 4_500_107_893 {
        25
    } else if k == 4_500_107_765 {
        26
    } else if k == 3_963_238_253 {
        27
    } else if k == 3_963_239_533 {
        28
    } else if k == 4_231_673_705 {
        29
    } else if k == 3_963_237_348 {
        30
    } else if k == 3_963_236_978 {
        31
    } else if k == 4_500_109_166 {
        32
    } else if k == 4_500_108_137 {
        33
    } else if k == 3_963_236_967 {
        34
    } else if k == 3_963_238_124 {
        35
    } else if k == 5_573_850_729 {
        36
    } else if k == 4_231_672_429 {
        37
    } else if k == 5_305_415_529 {
        38
    } else if k == 4_500_109_415 {
        39
    } else if k == 4_500_101_360 {
        40
    } else if k == 5_305_414_377 {
        41
    } else if k == 3_732_714_085 {
        42
    } else if k == 4_001_231_593 {
        43
    } else if k == 4_269_306_469 {
        44
    } else if k == 4_269_373_939 {
        45
    } else if k == 4_537_873_129 {
        46
    } else if k == 4_269_439_332 {
        47
    } else if k == 4_269_585_135 {
        48
    } else if k == 4_001_151_332 {
        49
    } else if k == 4_269_585_121 {
        50
    } else if k == 4_001_069_412 {
        51
    } else if k == 4_537_923_940 {
        52
    } else if k == 4_269_407_077 {
        53
    } else if k == 4_269_603_685 {
        54
    } else if k == 3_464_032_867 {
        55
    } else if k == 3_732_746_985 {
        56
    } else if k == 4_000_904_687 {
        57
    } else if k == 4_269_404_784 {
        58
    } else if k == 3_464_296_563 {
        59
    } else if k == 4_806_424_303 {
        60
    } else if k == 4_269_602_548 {
        61
    } else if k == 3_732_500_984 {
        62
    } else if k == 3_732_503_160 {
        63
    } else if k == 3_732_437_490 {
        64
    } else if k == 4_231_606_885 {
        65
    } else if k == 3_963_173_481 {
        66
    } else if k == 4_500_044_399 {
        67
    } else if k == 3_979_967_470 {
        68
    } else if k == 4_785_273_453 {
        69
    } else if k == 4_516_837_477 {
        70
    } else if k == 5_611_699_433 {
        71
    } else if k == 4_537_955_058 {
        72
    } else if k == 2_891_559_778 {
        73
    } else if k == 3_965_302_636 {
        74
    } else if k == 4_233_738_596 {
        75
    } else if k == 3_732_741_215 {
        76
    } else if k == 4_001_176_425 {
        77
    } else if k == 4_001_175_913 {
        78
    } else if k == 4_001_176_169 {
        79
    } else if k == 4_001_184_112 {
        80
    } else if k == 4_001_175_910 {
        81
    } else if k == 4_001_176_166 {
        82
    } else if k == 3_707_575_391 {
        83
    } else if k == 3_976_010_601 {
        84
    } else if k == 3_976_010_089 {
        85
    } else if k == 3_976_010_345 {
        86
    } else if k == 3_976_018_288 {
        87
    } else if k == 3_976_010_086 {
        88
    } else if k == 3_976_010_342 {
        89
    } else if k == 4_260_886_113 {
        90
    } else if k == 3_971_668_585 {
        91
    } else if k == 3_992_541_801 {
        92
    } else if k == 3_971_668_329 {
        93
    } else if k == 3_992_541_545 {
        94
    } else if k == 3_734_501_744 {
        95
    } else if k == 2_931_372_661 {
        96
    } else if k == 4_770_806_132 {
        97
    } else if k == 4_508_350_324 {
        98
    } else if k == 4_508_351_077 {
        99
    } else if k == 4_776_786_533 {
        100
    } else if k == 3_703_044_213 {
        101
    } else if k == 3_971_478_117 {
        102
    } else if k == 3_971_480_421 {
        103
    } else if k == 4_508_350_436 {
        104
    } else if k == 5_045_221_106 {
        105
    } else if k == 4_239_913_711 {
        106
    } else if k == 5_045_221_231 {
        107
    } else if k == 5_850_528_367 {
        108
    } else if k == 6_118_962_153 {
        109
    } else if k == 4_776_786_543 {
        110
    } else if k == 3_971_479_151 {
        111
    } else if k == 4_776_784_620 {
        112
    } else if k == 5_582_092_911 {
        113
    } else if k == 4_239_914_994 {
        114
    } else {
        -1
    }
}

proof fn marks_from_0(i: int)
    requires
        0 <= i < 12,
    ensures
        place_of(mark(table(i).symbol)) == i,
{
    reveal(table);
    if i == 0 {
        reveal_strlit("lumen_math_sqrt");
        assert(mark("lumen_math_sqrt"@) == 4_231_674_481);
    } else if i == 1 {
        reveal_strlit("lumen_math_sin");
        assert(mark("lumen_math_sin"@) == 3_963_238_259);
    } else if i == 2 {
        reveal_strlit("lumen_math_cos");
        assert(mark("lumen_math_cos"@) == 3_963_238_883);
    } else if i == 3 {
        reveal_strlit("lumen_math_tan");
        assert(mark("lumen_math_tan"@) == 3_963_238_260);
    } else if i == 4 {
        reveal_strlit("lumen_math_abs");
        assert(mark("lumen_math_abs"@) == 3_963_238_881);
    } else if i == 5 {
        reveal_strlit("lumen_math_floor");
        assert(mark("lumen_math_floor"@) == 4_500_109_679);
    } else if i == 6 {
        reveal_strlit("lumen_math_ceil");
        assert(mark("lumen_math_ceil"@) == 4_231_673_445);
    } else if i == 7 {
        reveal_strlit("lumen_math_pow");
        assert(mark("lumen_math_pow"@) == 3_963_239_408);
    } else if i == 8 {
        reveal_strlit("lumen_math_log");
        assert(mark("lumen_math_log"@) == 3_963_237_356);
    } else if i == 9 {
        reveal_strlit("lumen_math_log10");
        assert(mark("lumen_math_log10"@) == 4_500_101_223);
    } else if i == 10 {
        reveal_strlit("lumen_math_exp");
        assert(mark("lumen_math_exp"@) == 3_963_238_501);
    } else {
        reveal_strlit("lumen_math_pi");
        assert(mark("lumen_math_pi"@) == 3_694_802_143);
    }
}

proof fn marks_from_12(i: int)
    requires
        12 <= i < 24,
    ensures
        place_of(mark(table(i).symbol)) == i,
{
    reveal(table);
    if i == 12 {
        reveal_strlit("lumen_math_e");
        assert(mark("lumen_math_e"@) == 3_426_366_184);
    } else if i == 13 {
        reveal_strlit("lumen_math_tau");
        assert(mark("lumen_math_tau"@) == 3_963_239_156);
    } else if i == 14 {
        reveal_strlit("lumen_math_inf");
        assert(mark("lumen_math_inf"@) == 3_963_237_225);
    } else if i == 15 {
        reveal_strlit("lumen_math_log2");
        assert(mark("lumen_math_log2"@) == 4_231_666_031);
    } else if i == 16 {
        reveal_strlit("lumen_math_cbrt");
        assert(mark("lumen_math_cbrt"@) == 4_231_674_466);
    } else if i == 17 {
        reveal_strlit("lumen_math_asin");
        assert(mark("lumen_math_asin"@) == 4_231_673_715);
    } else if i == 18 {
        reveal_strlit("lumen_math_acos");
        assert(mark("lumen_math_acos"@) == 4_231_674_339);
    } else if i == 19 {
        reveal_strlit("lumen_math_atan");
        assert(mark("lumen_math_atan"@) == 4_231_673_716);
    } else if i == 20 {
        reveal_strlit("lumen_math_atan2");
        assert(mark("lumen_math_atan2"@) == 4_500_101_473);
    } else if i == 21 {
        reveal_strlit("lumen_math_sinh");
        assert(mark("lumen_math_sinh"@) == 4_231_672_937);
    } else if i == 22 {
        reveal_strlit("lumen_math_cosh");
        assert(mark("lumen_math_cosh"@) == 4_231_672_943);
    } else {
        reveal_strlit("lumen_math_tanh");
        assert(mark("lumen_math_tanh"@) == 4_231_672_929);
    }
}

proof fn marks_from_24(i: int)
    requires
        24 <= i < 36,
    ensures
        place_of(mark(table(i).symbol)) == i,
{
    reveal(table);
    if i == 24 {
        reveal_strlit("lumen_math_hypot");
        assert(mark("lumen_math_hypot"@) == 4_500_109_936);
    } else if i == 25 {
        reveal_strlit("lumen_math_round");
        assert(mark("lumen_math_round"@) == 4_500_107_893);
    } else if i == 26 {
        reveal_strlit("lumen_math_trunc");
        assert(mark("lumen_math_trunc"@) == 4_500_107_765);
    } else if i == 27 {
        reveal_strlit("lumen_math_min");
        assert(mark("lumen_math_min"@) == 3_963_238_253);
    } else if i == 28 {
        reveal_strlit("lumen_math_max");
        assert(mark("lumen_math_max"@) == 3_963_239_533);
    } else if i == 29 {
        reveal_strlit("lumen_math_sign");
        assert(mark("lumen_math_sign"@) == 4_231_673_705);
    } else if i == 30 {
        reveal_strlit("lumen_math_deg");
        assert(mark("lumen_math_deg"@) == 3_963_237_348);
    } else if i == 31 {
        reveal_strlit("lumen_math_rad");
        assert(mark("lumen_math_rad"@) == 3_963_236_978);
    } else if i == 32 {
        reveal_strlit("lumen_math_isnan");
        assert(mark("lumen_math_isnan"@) == 4_500_109_166);
    } else if i == 33 {
        reveal_strlit("lumen_math_isinf");
        assert(mark("lumen_math_isinf"@) == 4_500_108_137);
    } else if i == 34 {
        reveal_strlit("lumen_math_gcd");
        assert(mark("lumen_math_gcd"@) == 3_963_236_967);
    } else {
        reveal_strlit("lumen_math_lcm");
        assert(mark("lumen_math_lcm"@) == 3_963_238_124);
    }
}

proof fn marks_from_36(i: int)
    requires
        36 <= i < 48,
    ensures
        place_of(mark(table(i).symbol)) == i,
{
    reveal(table);
    if i == 36 {
        reveal_strlit("lumen_math_factorial");
        assert(mark("lumen_math_factorial"@) == 5_573_850_729);
    } else if i == 37 {
        reveal_strlit("lumen_math_fmod");
        assert(mark("lumen_math_fmod"@) == 4_231_672_429);
    } else if i == 38 {
        reveal_strlit("lumen_math_copysign");
        assert(mark("lumen_math_copysign"@) == 5_305_415_529);
    } else if i == 39 {
        reveal_strlit("lumen_math_log1p");
        assert(mark("lumen_math_log1p"@) == 4_500_109_415);
    } else if i == 40 {
        reveal_strlit("lumen_math_expm1");
        assert(mark("lumen_math_expm1"@) == 4_500_101_360);
    } else if i == 41 {
        reveal_strlit("lumen_math_isfinite");
        assert(mark("lumen_math_isfinite"@) == 5_305_414_377);
    } else if i == 42 {
        reveal_strlit("lumen_os_read");
        assert(mark("lumen_os_read"@) == 3_732_714_085);
    } else if i == 43 {
        reveal_strlit("lumen_os_write");
        assert(mark("lumen_os_write"@) == 4_001_231_593);
    } else if i == 44 {
        reveal_strlit("lumen_os_append");
        assert(mark("lumen_os_append"@) == 4_269_306_469);
    } else if i == 45 {
        reveal_strlit("lumen_os_exists");
        assert(mark("lumen_os_exists"@) == 4_269_373_939);
    } else if i == 46 {
        reveal_strlit("lumen_os_is_file");
        assert(mark("lumen_os_is_file"@) == 4_537_873_129);
    } else {
        reveal_strlit("lumen_os_is_dir");
        assert(mark("lumen_os_is_dir"@) == 4_269_439_332);
    }
}

proof fn marks_from_48(i: int)
    requires
        48 <= i < 60,
    ensures
        place_of(mark(table(i).symbol)) == i,
{
    reveal(table);
    if i == 48 {
        reveal_strlit("lumen_os_remove");
        assert(mark("lumen_os_remove"@) == 4_269_585_135);
    } else if i == 49 {
        reveal_strlit("lumen_os_rmdir");
        assert(mark("lumen_os_rmdir"@) == 4_001_151_332);
    } else if i == 50 {
        reveal_strlit("lumen_os_rename");
        assert(mark("lumen_os_rename"@) == 4_269_585_121);
    } else if i == 51 {
        reveal_strlit("lumen_os_mkdir");
        assert(mark("lumen_os_mkdir"@) == 4_001_069_412);
    } else if i == 52 {
        reveal_strlit("lumen_os_listdir");
        assert(mark("lumen_os_listdir"@) == 4_537_923_940);
    } else if i == 53 {
        reveal_strlit("lumen_os_getenv");
        assert(mark("lumen_os_getenv"@) == 4_269_407_077);
    } else if i == 54 {
        reveal_strlit("lumen_os_setenv");
        assert(mark("lumen_os_setenv"@) == 4_269_603_685);
    } else if i == 55 {
        reveal_strlit("lumen_os_cwd");
        assert(mark("lumen_os_cwd"@) == 3_464_032_867);
    } else if i == 56 {
        reveal_strlit("lumen_os_time");
        assert(mark("lumen_os_time"@) == 3_732_746_985);
    } else if i == 57 {
        reveal_strlit("lumen_os_clock");
        assert(mark("lumen_os_clock"@) == 4_000_904_687);
    } else if i == 58 {
        reveal_strlit("lumen_os_getpid");
        assert(mark("lumen_os_getpid"@) == 4_269_404_784);
    } else {
        reveal_strlit("lumen_os_sep");
        assert(mark("lumen_os_sep"@) == 3_464_296_563);
    }
}

proof fn marks_from_60(i: int)
    requires
        60 <= i < 72,
    ensures
        place_of(mark(table(i).symbol)) == i,
{
    reveal(table);
    if i == 60 {
        reveal_strlit("lumen_os_platform");
        assert(mark("lumen_os_platform"@) == 4_806_424_303);
    } else if i == 61 {
        reveal_strlit("lumen_os_system");
        assert(mark("lumen_os_system"@) == 4_269_602_548);
    } else if i == 62 {
        reveal_strlit("lumen_os_exec");
        assert(mark("lumen_os_exec"@) == 3_732_500_984);
    } else if i == 63 {
        reveal_strlit("lumen_os_exit");
        assert(mark("lumen_os_exit"@) == 3_732_503_160);
    } else if i == 64 {
        reveal_strlit("lumen_os_args");
        assert(mark("lumen_os_args"@) == 3_732_437_490);
    } else if i == 65 {
        reveal_strlit("lumen_rand_seed");
        assert(mark("lumen_rand_seed"@) == 4_231_606_885);
    } else if i == 66 {
        reveal_strlit("lumen_rand_int");
        assert(mark("lumen_rand_int"@) == 3_963_173_481);
    } else if i == 67 {
        reveal_strlit("lumen_rand_float");
        assert(mark("lumen_rand_float"@) == 4_500_044_399);
    } else if i == 68 {
        reveal_strlit("lumen_time_now");
        assert(mark("lumen_time_now"@) == 3_979_967_470);
    } else if i == 69 {
        reveal_strlit("lumen_time_format");
        assert(mark("lumen_time_format"@) == 4_785_273_453);
    } else if i == 70 {
        reveal_strlit("lumen_time_sleep");
        assert(mark("lumen_time_sleep"@) == 4_516_837_477);
    } else {
        reveal_strlit("lumen_json_stringify");
        assert(mark("lumen_json_stringify"@) == 5_611_699_433);
    }
}

proof fn marks_from_72(i: int)
    requires
        72 <= i < 84,
    ensures
        place_of(mark(table(i).symbol)) == i,
{
    reveal(table);
    if i == 72 {
        reveal_strlit("lumen_json_parse");
        assert(mark("lumen_json_parse"@) == 4_537_955_058);
    } else if i == 73 {
        reveal_strlit("lumen_cbuf");
        assert(mark("lumen_cbuf"@) == 2_891_559_778);
    } else if i == 74 {
        reveal_strlit("lumen_cbuf_len");
        assert(mark("lumen_cbuf_len"@) == 3_965_302_636);
    } else if i == 75 {
        reveal_strlit("lumen_cbuf_addr");
        assert(mark("lumen_cbuf_addr"@) == 4_233_738_596);
    } else if i == 76 {
        reveal_strlit("lumen_cset_i8");
        assert(mark("lumen_cset_i8"@) == 3_732_741_215);
    } else if i == 77 {
        reveal_strlit("lumen_cset_i16");
        assert(mark("lumen_cset_i16"@) == 4_001_176_425);
    } else if i == 78 {
        reveal_strlit("lumen_cset_i32");
        assert(mark("lumen_cset_i32"@) == 4_001_175_913);
    } else if i == 79 {
        reveal_strlit("lumen_cset_i64");
        assert(mark("lumen_cset_i64"@) == 4_001_176_169);
    } else if i == 80 {
        reveal_strlit("lumen_cset_ptr");
        assert(mark("lumen_cset_ptr"@) == 4_001_184_112);
    } else if i == 81 {
        reveal_strlit("lumen_cset_f32");
        assert(mark("lumen_cset_f32"@) == 4_001_175_910);
    } else if i == 82 {
        reveal_strlit("lumen_cset_f64");
        assert(mark("lumen_cset_f64"@) == 4_001_176_166);
    } else {
        reveal_strlit("lumen_cget_i8");
        assert(mark("lumen_cget_i8"@) == 3_707_575_391);
    }
}

proof fn marks_from_84(i: int)
    requires
        84 <= i < 96,
    ensures
        place_of(mark(table(i).symbol)) == i,
{
    reveal(table);
    if i == 84 {
        reveal_strlit("lumen_cget_i16");
        assert(mark("lumen_cget_i16"@) == 3_976_010_601);
    } else if i == 85 {
        reveal_strlit("lumen_cget_i32");
        assert(mark("lumen_cget_i32"@) == 3_976_010_089);
    } else if i == 86 {
        reveal_strlit("lumen_cget_i64");
        assert(mark("lumen_cget_i64"@) == 3_976_010_345);
    } else if i == 87 {
        reveal_strlit("lumen_cget_ptr");
        assert(mark("lumen_cget_ptr"@) == 3_976_018_288);
    } else if i == 88 {
        reveal_strlit("lumen_cget_f32");
        assert(mark("lumen_cget_f32"@) == 3_976_010_086);
    } else if i == 89 {
        reveal_strlit("lumen_cget_f64");
        assert(mark("lumen_cget_f64"@) == 3_976_010_342);
    } else if i == 90 {
        reveal_strlit("lumen_com_vcall");
        assert(mark("lumen_com_vcall"@) == 4_260_886_113);
    } else if i == 91 {
        reveal_strlit("lumen_peek_i64");
        assert(mark("lumen_peek_i64"@) == 3_971_668_585);
    } else if i == 92 {
        reveal_strlit("lumen_poke_i64");
        assert(mark("lumen_poke_i64"@) == 3_992_541_801);
    } else if i == 93 {
        reveal_strlit("lumen_peek_i32");
        assert(mark("lumen_peek_i32"@) == 3_971_668_329);
    } else if i == 94 {
        reveal_strlit("lumen_poke_i32");
        assert(mark("lumen_poke_i32"@) == 3_992_541_545);
    } else {
        reveal_strlit("lumen_str_ptr");
        assert(mark("lumen_str_ptr"@) == 3_734_501_744);
    }
}

proof fn marks_from_96(i: int)
    requires
        96 <= i < 108,
    ensures
        place_of(mark(table(i).symbol)) == i,
{
    reveal(table);
    if i == 96 {
        reveal_strlit("lumen_guid");
        assert(mark("lumen_guid"@) == 2_931_372_661);
    } else if i == 97 {
        reveal_strlit("lumen_cb_register");
        assert(mark("lumen_cb_register"@) == 4_770_806_132);
    } else if i == 98 {
        reveal_strlit("lumen_net_listen");
        assert(mark("lumen_net_listen"@) == 4_508_350_324);
    } else if i == 99 {
        reveal_strlit("lumen_net_accept");
        assert(mark("lumen_net_accept"@) == 4_508_351_077);
    } else if i == 100 {
        reveal_strlit("lumen_net_connect");
        assert(mark("lumen_net_connect"@) == 4_776_786_533);
    } else if i == 101 {
        reveal_strlit("lumen_net_udp");
        assert(mark("lumen_net_udp"@) == 3_703_044_213);
    } else if i == 102 {
        reveal_strlit("lumen_net_send");
        assert(mark("lumen_net_send"@) == 3_971_478_117);
    } else if i == 103 {
        reveal_strlit("lumen_net_recv");
        assert(mark("lumen_net_recv"@) == 3_971_480_421);
    } else if i == 104 {
        reveal_strlit("lumen_net_sendto");
        assert(mark("lumen_net_sendto"@) == 4_508_350_436);
    } else if i == 105 {
        reveal_strlit("lumen_net_recvfrom");
        assert(mark("lumen_net_recvfrom"@) == 5_045_221_106);
    } else if i == 106 {
        reveal_strlit("lumen_net_close");
        assert(mark("lumen_net_close"@) == 4_239_913_711);
    } else {
        reveal_strlit("lumen_net_shutdown");
        assert(mark("lumen_net_shutdown"@) == 5_045_221_231);
    }
}

proof fn marks_from_108(i: int)
    requires
        108 <= i < 115,
    ensures
        place_of(mark(table(i).symbol)) == i,
{
    reveal(table);
    if i == 108 {
        reveal_strlit("lumen_net_set_timeout");
        assert(mark("lumen_net_set_timeout"@) == 5_850_528_367);
    } else if i == 109 {
        reveal_strlit("lumen_net_set_blocking");
        assert(mark("lumen_net_set_blocking"@) == 6_118_962_153);
    } else if i == 110 {
        reveal_strlit("lumen_net_set_opt");
        assert(mark("lumen_net_set_opt"@) == 4_776_786_543);
    } else if i == 111 {
        reveal_strlit("lumen_net_poll");
        assert(mark("lumen_net_poll"@) == 3_971_479_151);
    } else if i == 112 {
        reveal_strlit("lumen_net_resolve");
        assert(mark("lumen_net_resolve"@) == 4_776_784_620);
    } else if i == 113 {
        reveal_strlit("lumen_net_local_port");
        assert(mark("lumen_net_local_port"@) == 5_582_092_911);
    } else {
        reveal_strlit("lumen_net_errno");
        assert(mark("lumen_net_errno"@) == 4_239_914_994);
    }
}

proof fn mark_tells_place(i: int)
    requires
        0 <= i < MODULE_FN_COUNT,
    ensures
        place_of(mark(table(i).symbol)) == i,
{
    if i < 12 {
        marks_from_0(i);
    } else if i < 24 {
        marks_from_12(i);
    } else if i < 36 {
        marks_from_24(i);
    } else if i < 48 {
        marks_from_36(i);
    } else if i < 60 {
        marks_from_48(i);
    } else if i < 72 {
        marks_from_60(i);
    } else if i < 84 {
        marks_from_72(i);
    } else if i < 96 {
        marks_from_84(i);
    } else if i < 108 {
        marks_from_96(i);
    } else {
        marks_from_108(i);
    }
}

/// The place of what is found.
proof fn found_at(module: Seq<char>, name: Seq<char>, from: int) -> (i: int)
    requires
        0 <= from,
        lookup_spec(module, name, from) is Some,
    ensures
        from <= i < MODULE_FN_COUNT,
        is_entry(i, module, name),
        lookup_spec(module, name, from) == Some(table(i)),
    decreases MODULE_FN_COUNT - from,
{
    if is_entry(from, module, name) {
        from
    } else {
        found_at(module, name, from + 1)
    }
}

/// No two functions of the built-in modules share a symbol.
pub proof fn symbols_are_unique(
    module: Seq<char>,
    name: Seq<char>,
    module2: Seq<char>,
    name2: Seq<char>,
)
    requires
        lookup_spec(module, name, 0) is Some,
        lookup_spec(module2, name2, 0) is Some,
        module != module2 || name != name2,
    ensures
        lookup_spec(module, name, 0)->Some_0.symbol != lookup_spec(module2, name2, 0)->Some_0.symbol,
{
    let i = found_at(module, name, 0);
    let j = found_at(module2, name2, 0);
    mark_tells_place(i);
    mark_tells_place(j);
}

/// A name is that of a built-in module exactly when some function of it is found.
pub proof fn modules_have_functions(module: Seq<char>)
    ensures
        is_module_spec(module) <==> exists|name: Seq<char>|
            (#[trigger] lookup_spec(module, name, 0)) is Some,
{
    if is_module_spec(module) {
        let i = choose|i: int| 0 <= i < MODULE_FN_COUNT && (#[trigger] table(i)).module == module;
        let name = table(i).name;
        lookup_finds_entry(module, name, 0);
        assert(is_entry(i, module, name));
        assert(lookup_spec(module, name, 0) is Some);
    }
    if exists|name: Seq<char>| (#[trigger] lookup_spec(module, name, 0)) is Some {
        let name = choose|name: Seq<char>| (#[trigger] lookup_spec(module, name, 0)) is Some;
        lookup_finds_entry(module, name, 0);
    }
}

} // verus!
