//! The gamma curve, tabulated.
//!
//! Display conversion uses gamma 2.2: a display byte `b` stands for the
//! linear intensity `(b/255)^2.2`.  `decode_raw` tabulates that curve on
//! the fixed-point grid: entry `b` is `floor(SCALE * (b/255)^2.2)`,
//! computed exactly (2.2 == 11/5, so each entry is the integer fifth
//! root of `SCALE^5 * b^11 / 255^11`).  Encoding searches this table,
//! which on the grid is the same as `floor(255 * c^(1/2.2))`.

use vstd::prelude::*;

verus! {

/// The tabulated curve as a spec-level function: `decode_raw(b)` is the
/// raw fixed-point value of the linear intensity of display byte `b`,
/// for `0 <= b <= 255`; it is `0` below the table and `SCALE` above it.
pub open spec fn decode_raw(b: int) -> int {
    if b <= 0 {
        0
    } else if b == 1 {
        21805
    } else if b == 2 {
        100193
    } else if b == 3 {
        244477
    } else if b == 4 {
        460366
    } else if b == 5 {
        752151
    } else if b == 6 {
        1123321
    } else if b == 7 {
        1576838
    } else if b == 8 {
        2115287
    } else if b == 9 {
        2740974
    } else if b == 10 {
        3455981
    } else if b == 11 {
        4262215
    } else if b == 12 {
        5161431
    } else if b == 13 {
        6155266
    } else if b == 14 {
        7245246
    } else if b == 15 {
        8432808
    } else if b == 16 {
        9719309
    } else if b == 17 {
        11106036
    } else if b == 18 {
        12594211
    } else if b == 19 {
        14185001
    } else if b == 20 {
        15879523
    } else if b == 21 {
        17678846
    } else if b == 22 {
        19583998
    } else if b == 23 {
        21595969
    } else if b == 24 {
        23715713
    } else if b == 25 {
        25944152
    } else if b == 26 {
        28282176
    } else if b == 27 {
        30730649
    } else if b == 28 {
        33290409
    } else if b == 29 {
        35962266
    } else if b == 30 {
        38747012
    } else if b == 31 {
        41645414
    } else if b == 32 {
        44658220
    } else if b == 33 {
        47786159
    } else if b == 34 {
        51029942
    } else if b == 35 {
        54390263
    } else if b == 36 {
        57867799
    } else if b == 37 {
        61463212
    } else if b == 38 {
        65177151
    } else if b == 39 {
        69010249
    } else if b == 40 {
        72963128
    } else if b == 41 {
        77036394
    } else if b == 42 {
        81230645
    } else if b == 43 {
        85546464
    } else if b == 44 {
        89984426
    } else if b == 45 {
        94545093
    } else if b == 46 {
        99229018
    } else if b == 47 {
        104036743
    } else if b == 48 {
        108968804
    } else if b == 49 {
        114025724
    } else if b == 50 {
        119208019
    } else if b == 51 {
        124516198
    } else if b == 52 {
        129950758
    } else if b == 53 {
        135512194
    } else if b == 54 {
        141200988
    } else if b == 55 {
        147017617
    } else if b == 56 {
        152962553
    } else if b == 57 {
        159036257
    } else if b == 58 {
        165239187
    } else if b == 59 {
        171571793
    } else if b == 60 {
        178034518
    } else if b == 61 {
        184627802
    } else if b == 62 {
        191352077
    } else if b == 63 {
        198207768
    } else if b == 64 {
        205195299
    } else if b == 65 {
        212315083
    } else if b == 66 {
        219567533
    } else if b == 67 {
        226953053
    } else if b == 68 {
        234472045
    } else if b == 69 {
        242124905
    } else if b == 70 {
        249912024
    } else if b == 71 {
        257833789
    } else if b == 72 {
        265890583
    } else if b == 73 {
        274082783
    } else if b == 74 {
        282410765
    } else if b == 75 {
        290874897
    } else if b == 76 {
        299475547
    } else if b == 77 {
        308213075
    } else if b == 78 {
        317087841
    } else if b == 79 {
        326100199
    } else if b == 80 {
        335250501
    } else if b == 81 {
        344539092
    } else if b == 82 {
        353966319
    } else if b == 83 {
        363532520
    } else if b == 84 {
        373238034
    } else if b == 85 {
        383083194
    } else if b == 86 {
        393068333
    } else if b == 87 {
        403193776
    } else if b == 88 {
        413459850
    } else if b == 89 {
        423866875
    } else if b == 90 {
        434415172
    } else if b == 91 {
        445105055
    } else if b == 92 {
        455936839
    } else if b == 93 {
        466910833
    } else if b == 94 {
        478027346
    } else if b == 95 {
        489286683
    } else if b == 96 {
        500689146
    } else if b == 97 {
        512235035
    } else if b == 98 {
        523924648
    } else if b == 99 {
        535758280
    } else if b == 100 {
        547736224
    } else if b == 101 {
        559858771
    } else if b == 102 {
        572126207
    } else if b == 103 {
        584538820
    } else if b == 104 {
        597096892
    } else if b == 105 {
        609800705
    } else if b == 106 {
        622650538
    } else if b == 107 {
        635646668
    } else if b == 108 {
        648789371
    } else if b == 109 {
        662078918
    } else if b == 110 {
        675515582
    } else if b == 111 {
        689099631
    } else if b == 112 {
        702831332
    } else if b == 113 {
        716710950
    } else if b == 114 {
        730738748
    } else if b == 115 {
        744914988
    } else if b == 116 {
        759239930
    } else if b == 117 {
        773713830
    } else if b == 118 {
        788336945
    } else if b == 119 {
        803109529
    } else if b == 120 {
        818031835
    } else if b == 121 {
        833104113
    } else if b == 122 {
        848326613
    } else if b == 123 {
        863699582
    } else if b == 124 {
        879223265
    } else if b == 125 {
        894897908
    } else if b == 126 {
        910723752
    } else if b == 127 {
        926701039
    } else if b == 128 {
        942830009
    } else if b == 129 {
        959110900
    } else if b == 130 {
        975543948
    } else if b == 131 {
        992129389
    } else if b == 132 {
        1008867456
    } else if b == 133 {
        1025758381
    } else if b == 134 {
        1042802396
    } else if b == 135 {
        1059999730
    } else if b == 136 {
        1077350612
    } else if b == 137 {
        1094855267
    } else if b == 138 {
        1112513921
    } else if b == 139 {
        1130326800
    } else if b == 140 {
        1148294124
    } else if b == 141 {
        1166416117
    } else if b == 142 {
        1184692998
    } else if b == 143 {
        1203124987
    } else if b == 144 {
        1221712301
    } else if b == 145 {
        1240455157
    } else if b == 146 {
        1259353771
    } else if b == 147 {
        1278408356
    } else if b == 148 {
        1297619126
    } else if b == 149 {
        1316986292
    } else if b == 150 {
        1336510066
    } else if b == 151 {
        1356190657
    } else if b == 152 {
        1376028274
    } else if b == 153 {
        1396023124
    } else if b == 154 {
        1416175413
    } else if b == 155 {
        1436485346
    } else if b == 156 {
        1456953129
    } else if b == 157 {
        1477578964
    } else if b == 158 {
        1498363053
    } else if b == 159 {
        1519305597
    } else if b == 160 {
        1540406796
    } else if b == 161 {
        1561666850
    } else if b == 162 {
        1583085956
    } else if b == 163 {
        1604664312
    } else if b == 164 {
        1626402113
    } else if b == 165 {
        1648299555
    } else if b == 166 {
        1670356832
    } else if b == 167 {
        1692574138
    } else if b == 168 {
        1714951664
    } else if b == 169 {
        1737489602
    } else if b == 170 {
        1760188143
    } else if b == 171 {
        1783047476
    } else if b == 172 {
        1806067790
    } else if b == 173 {
        1829249273
    } else if b == 174 {
        1852592111
    } else if b == 175 {
        1876096492
    } else if b == 176 {
        1899762599
    } else if b == 177 {
        1923590618
    } else if b == 178 {
        1947580732
    } else if b == 179 {
        1971733124
    } else if b == 180 {
        1996047975
    } else if b == 181 {
        2020525468
    } else if b == 182 {
        2045165781
    } else if b == 183 {
        2069969096
    } else if b == 184 {
        2094935590
    } else if b == 185 {
        2120065441
    } else if b == 186 {
        2145358827
    } else if b == 187 {
        2170815923
    } else if b == 188 {
        2196436907
    } else if b == 189 {
        2222221952
    } else if b == 190 {
        2248171232
    } else if b == 191 {
        2274284922
    } else if b == 192 {
        2300563194
    } else if b == 193 {
        2327006219
    } else if b == 194 {
        2353614170
    } else if b == 195 {
        2380387216
    } else if b == 196 {
        2407325528
    } else if b == 197 {
        2434429274
    } else if b == 198 {
        2461698623
    } else if b == 199 {
        2489133744
    } else if b == 200 {
        2516734802
    } else if b == 201 {
        2544501965
    } else if b == 202 {
        2572435398
    } else if b == 203 {
        2600535266
    } else if b == 204 {
        2628801734
    } else if b == 205 {
        2657234966
    } else if b == 206 {
        2685835124
    } else if b == 207 {
        2714602372
    } else if b == 208 {
        2743536871
    } else if b == 209 {
        2772638782
    } else if b == 210 {
        2801908267
    } else if b == 211 {
        2831345485
    } else if b == 212 {
        2860950596
    } else if b == 213 {
        2890723758
    } else if b == 214 {
        2920665130
    } else if b == 215 {
        2950774869
    } else if b == 216 {
        2981053133
    } else if b == 217 {
        3011500078
    } else if b == 218 {
        3042115859
    } else if b == 219 {
        3072900633
    } else if b == 220 {
        3103854553
    } else if b == 221 {
        3134977775
    } else if b == 222 {
        3166270452
    } else if b == 223 {
        3197732736
    } else if b == 224 {
        3229364781
    } else if b == 225 {
        3261166738
    } else if b == 226 {
        3293138758
    } else if b == 227 {
        3325280994
    } else if b == 228 {
        3357593594
    } else if b == 229 {
        3390076709
    } else if b == 230 {
        3422730489
    } else if b == 231 {
        3455555081
    } else if b == 232 {
        3488550635
    } else if b == 233 {
        3521717298
    } else if b == 234 {
        3555055217
    } else if b == 235 {
        3588564539
    } else if b == 236 {
        3622245410
    } else if b == 237 {
        3656097976
    } else if b == 238 {
        3690122383
    } else if b == 239 {
        3724318774
    } else if b == 240 {
        3758687295
    } else if b == 241 {
        3793228089
    } else if b == 242 {
        3827941300
    } else if b == 243 {
        3862827070
    } else if b == 244 {
        3897885541
    } else if b == 245 {
        3933116856
    } else if b == 246 {
        3968521156
    } else if b == 247 {
        4004098582
    } else if b == 248 {
        4039849275
    } else if b == 249 {
        4075773374
    } else if b == 250 {
        4111871019
    } else if b == 251 {
        4148142350
    } else if b == 252 {
        4184587505
    } else if b == 253 {
        4221206623
    } else if b == 254 {
        4257999840
    } else if b == 255 {
        4294967296
    } else {
        4294967296
    }
}

/// The linear intensity of a display byte, as a raw fixed-point value.
pub fn decode_byte(b: u8) -> (r: u64)
    ensures
        r as int == decode_raw(b as int),
        0 <= r <= 4294967296,
{
    match b {
        0 => 0,
        1 => 21805,
        2 => 100193,
        3 => 244477,
        4 => 460366,
        5 => 752151,
        6 => 1123321,
        7 => 1576838,
        8 => 2115287,
        9 => 2740974,
        10 => 3455981,
        11 => 4262215,
        12 => 5161431,
        13 => 6155266,
        14 => 7245246,
        15 => 8432808,
        16 => 9719309,
        17 => 11106036,
        18 => 12594211,
        19 => 14185001,
        20 => 15879523,
        21 => 17678846,
        22 => 19583998,
        23 => 21595969,
        24 => 23715713,
        25 => 25944152,
        26 => 28282176,
        27 => 30730649,
        28 => 33290409,
        29 => 35962266,
        30 => 38747012,
        31 => 41645414,
        32 => 44658220,
        33 => 47786159,
        34 => 51029942,
        35 => 54390263,
        36 => 57867799,
        37 => 61463212,
        38 => 65177151,
        39 => 69010249,
        40 => 72963128,
        41 => 77036394,
        42 => 81230645,
        43 => 85546464,
        44 => 89984426,
        45 => 94545093,
        46 => 99229018,
        47 => 104036743,
        48 => 108968804,
        49 => 114025724,
        50 => 119208019,
        51 => 124516198,
        52 => 129950758,
        53 => 135512194,
        54 => 141200988,
        55 => 147017617,
        56 => 152962553,
        57 => 159036257,
        58 => 165239187,
        59 => 171571793,
        60 => 178034518,
        61 => 184627802,
        62 => 191352077,
        63 => 198207768,
        64 => 205195299,
        65 => 212315083,
        66 => 219567533,
        67 => 226953053,
        68 => 234472045,
        69 => 242124905,
        70 => 249912024,
        71 => 257833789,
        72 => 265890583,
        73 => 274082783,
        74 => 282410765,
        75 => 290874897,
        76 => 299475547,
        77 => 308213075,
        78 => 317087841,
        79 => 326100199,
        80 => 335250501,
        81 => 344539092,
        82 => 353966319,
        83 => 363532520,
        84 => 373238034,
        85 => 383083194,
        86 => 393068333,
        87 => 403193776,
        88 => 413459850,
        89 => 423866875,
        90 => 434415172,
        91 => 445105055,
        92 => 455936839,
        93 => 466910833,
        94 => 478027346,
        95 => 489286683,
        96 => 500689146,
        97 => 512235035,
        98 => 523924648,
        99 => 535758280,
        100 => 547736224,
        101 => 559858771,
        102 => 572126207,
        103 => 584538820,
        104 => 597096892,
        105 => 609800705,
        106 => 622650538,
        107 => 635646668,
        108 => 648789371,
        109 => 662078918,
        110 => 675515582,
        111 => 689099631,
        112 => 702831332,
        113 => 716710950,
        114 => 730738748,
        115 => 744914988,
        116 => 759239930,
        117 => 773713830,
        118 => 788336945,
        119 => 803109529,
        120 => 818031835,
        121 => 833104113,
        122 => 848326613,
        123 => 863699582,
        124 => 879223265,
        125 => 894897908,
        126 => 910723752,
        127 => 926701039,
        128 => 942830009,
        129 => 959110900,
        130 => 975543948,
        131 => 992129389,
        132 => 1008867456,
        133 => 1025758381,
        134 => 1042802396,
        135 => 1059999730,
        136 => 1077350612,
        137 => 1094855267,
        138 => 1112513921,
        139 => 1130326800,
        140 => 1148294124,
        141 => 1166416117,
        142 => 1184692998,
        143 => 1203124987,
        144 => 1221712301,
        145 => 1240455157,
        146 => 1259353771,
        147 => 1278408356,
        148 => 1297619126,
        149 => 1316986292,
        150 => 1336510066,
        151 => 1356190657,
        152 => 1376028274,
        153 => 1396023124,
        154 => 1416175413,
        155 => 1436485346,
        156 => 1456953129,
        157 => 1477578964,
        158 => 1498363053,
        159 => 1519305597,
        160 => 1540406796,
        161 => 1561666850,
        162 => 1583085956,
        163 => 1604664312,
        164 => 1626402113,
        165 => 1648299555,
        166 => 1670356832,
        167 => 1692574138,
        168 => 1714951664,
        169 => 1737489602,
        170 => 1760188143,
        171 => 1783047476,
        172 => 1806067790,
        173 => 1829249273,
        174 => 1852592111,
        175 => 1876096492,
        176 => 1899762599,
        177 => 1923590618,
        178 => 1947580732,
        179 => 1971733124,
        180 => 1996047975,
        181 => 2020525468,
        182 => 2045165781,
        183 => 2069969096,
        184 => 2094935590,
        185 => 2120065441,
        186 => 2145358827,
        187 => 2170815923,
        188 => 2196436907,
        189 => 2222221952,
        190 => 2248171232,
        191 => 2274284922,
        192 => 2300563194,
        193 => 2327006219,
        194 => 2353614170,
        195 => 2380387216,
        196 => 2407325528,
        197 => 2434429274,
        198 => 2461698623,
        199 => 2489133744,
        200 => 2516734802,
        201 => 2544501965,
        202 => 2572435398,
        203 => 2600535266,
        204 => 2628801734,
        205 => 2657234966,
        206 => 2685835124,
        207 => 2714602372,
        208 => 2743536871,
        209 => 2772638782,
        210 => 2801908267,
        211 => 2831345485,
        212 => 2860950596,
        213 => 2890723758,
        214 => 2920665130,
        215 => 2950774869,
        216 => 2981053133,
        217 => 3011500078,
        218 => 3042115859,
        219 => 3072900633,
        220 => 3103854553,
        221 => 3134977775,
        222 => 3166270452,
        223 => 3197732736,
        224 => 3229364781,
        225 => 3261166738,
        226 => 3293138758,
        227 => 3325280994,
        228 => 3357593594,
        229 => 3390076709,
        230 => 3422730489,
        231 => 3455555081,
        232 => 3488550635,
        233 => 3521717298,
        234 => 3555055217,
        235 => 3588564539,
        236 => 3622245410,
        237 => 3656097976,
        238 => 3690122383,
        239 => 3724318774,
        240 => 3758687295,
        241 => 3793228089,
        242 => 3827941300,
        243 => 3862827070,
        244 => 3897885541,
        245 => 3933116856,
        246 => 3968521156,
        247 => 4004098582,
        248 => 4039849275,
        249 => 4075773374,
        250 => 4111871019,
        251 => 4148142350,
        252 => 4184587505,
        253 => 4221206623,
        254 => 4257999840,
        255 => 4294967296,
    }
}

/// The largest byte `<= k` whose tabulated linear intensity does not
/// exceed `c`, or `0` when none qualifies.
pub open spec fn byte_scan(c: int, k: int) -> int
    decreases k,
{
    if k <= 0 {
        0
    } else if decode_raw(k) <= c {
        k
    } else {
        byte_scan(c, k - 1)
    }
}

/// The display byte for the linear intensity `c` (raw fixed-point): the
/// largest byte whose decoded intensity does not exceed `c`.  On the
/// table's grid this is `floor(255 * c^(1/2.2))`, clipped to `[0, 255]`;
/// negative intensities encode to `0`, intensities above one to `255`.
pub open spec fn byte_for(c: int) -> int {
    byte_scan(c, 255)
}

/// Bytes rejected by `byte_scan` really decode above `c`.
pub proof fn lemma_byte_scan_tight(c: int, k: int, b: int)
    requires
        0 <= k <= 255,
        byte_scan(c, k) < b <= k,
    ensures
        decode_raw(b) > c,
    decreases k,
{
    if k > 0 {
        if decode_raw(k) <= c {
        } else {
            if b == k {
            } else {
                lemma_byte_scan_tight(c, k - 1, b);
            }
        }
    }
}

/// `byte_scan` stays within the byte range.
pub proof fn lemma_byte_scan_range(c: int, k: int)
    requires
        0 <= k <= 255,
    ensures
        0 <= byte_scan(c, k) <= k,
    decreases k,
{
    if k > 0 {
        lemma_byte_scan_range(c, k - 1);
    }
}

/// The display byte for the linear intensity `c`: a scan over the whole
/// table, keeping the last byte that still decodes at or below `c`.
pub fn encode_byte(c: i128) -> (r: u8)
    ensures
        r as int == byte_for(c as int),
{
    let mut best: u8 = 0;
    let mut b: u16 = 1;
    while b <= 255
        invariant
            1 <= b <= 256,
            best as int == byte_scan(c as int, b - 1),
        decreases 256 - b,
    {
        let d = decode_byte(b as u8);
        if (d as i128) <= c {
            proof {
                lemma_byte_scan_range(c as int, b as int);
            }
            best = b as u8;
        }
        b = b + 1;
    }
    best
}

} // verus!
