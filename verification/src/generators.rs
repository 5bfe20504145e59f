//! The generators of G1 and G2 that the arkworks crates publish, and the
//! proof that each satisfies the equation of its curve as this library
//! states it. The proofs are arithmetic on constants: each remainder is shown
//! by its quotient.

use crate::bls12_381_curve::{
    bls12_381_fq_modulus, bls12_381_g1_on_curve, bls12_381_g2_on_curve,
};
use crate::bn254_curve::{
    bn254_fq_modulus, bn254_g1_kind, bn254_g1_on_curve, bn254_g2_on_curve,
};
use crate::point::{Fq2, PointKind, G1, G2};
use vstd::arithmetic::div_mod::*;
use vstd::prelude::*;

verus! {

/// `ark_bn254::G1Affine::generator()`.
pub open spec fn bn254_g1_generator() -> G1 {
    G1 { x: 1, y: 2 }
}

/// `ark_bn254::G2Affine::generator()`.
pub open spec fn bn254_g2_generator() -> G2 {
    G2 {
        x: Fq2 {
            c0: 10857046999023057135944570762232829481370756359578518086990519993285655852781nat,
            c1: 11559732032986387107991004021392285783925812861821192530917403151452391805634nat,
        },
        y: Fq2 {
            c0: 8495653923123431417604973247489272438418190587263600148770280649306958101930nat,
            c1: 4082367875863433681332203403145435568316851327593401208105741076214120093531nat,
        },
    }
}

/// `ark_bls12_381::G1Affine::generator()`.
pub open spec fn bls12_381_g1_generator() -> G1 {
    G1 {
        x: 3685416753713387016781088315183077757961620795782546409894578378688607592378376318836054947676345821548104185464507nat,
        y: 1339506544944476473020471379941921221584933875938349620426543736416511423956333506472724655353366534992391756441569nat,
    }
}

/// `ark_bls12_381::G2Affine::generator()`.
pub open spec fn bls12_381_g2_generator() -> G2 {
    G2 {
        x: Fq2 {
            c0: 352701069587466618187139116011060144890029952792775240219908644239793785735715026873347600343865175952761926303160nat,
            c1: 3059144344244213709971259814753781636986470325476647558659373206291635324768958432433509563104347017837885763365758nat,
        },
        y: Fq2 {
            c0: 1985150602287291935568054521177171638300868978215655730859378665066344726373823718423869104263333984641494340347905nat,
            c1: 927553665492332455747201965776037880757740193453592970025027978793976877002675564980949289727957565575433344219582nat,
        },
    }
}

/// `value` leaves the remainder `remainder` on division by `modulus`: it is
/// `quotient` times `modulus` plus `remainder`.
proof fn lemma_remainder(value: int, modulus: int, quotient: int, remainder: int)
    requires
        0 <= remainder < modulus,
        value == modulus * quotient + remainder,
    ensures
        value % modulus == remainder,
{
    assert(modulus * quotient == quotient * modulus) by (nonlinear_arith);
    lemma_fundamental_div_mod_converse(value, modulus, quotient, remainder);
}

/// The generator of G1 of BN254 satisfies `y^2 = x^3 + 3`.
/// The cofactor of G1 is one, so the validator accepts it.
pub proof fn lemma_bn254_g1_generator_on_curve()
    ensures
        bn254_g1_on_curve(bn254_g1_generator()),
        bn254_g1_kind(bn254_g1_generator()) == PointKind::Valid,
{
    let q = bn254_fq_modulus() as int;
    let x = bn254_g1_generator().x as int;
    let y = bn254_g1_generator().y as int;
    lemma_small_mod(x as nat, q as nat);
    lemma_small_mod(y as nat, q as nat);
    lemma_remainder(y * y, q, 0int, 4int);
    lemma_remainder(x * x * x + 3int, q, 0int, 4int);
}

/// The generator of G2 of BN254 satisfies `y^2 = x^3 + 3 / (9 + u)`.
pub proof fn lemma_bn254_g2_generator_on_curve()
    ensures
        bn254_g2_on_curve(bn254_g2_generator()),
{
    let q = bn254_fq_modulus() as int;
    let x = bn254_g2_generator().x;
    let y = bn254_g2_generator().y;
    lemma_small_mod(x.c0, q as nat);
    lemma_small_mod(x.c1, q as nat);
    lemma_small_mod(y.c0, q as nat);
    lemma_small_mod(y.c1, q as nat);
    lemma_remainder(
        (y.c0 * y.c0 - y.c1 * y.c1) as int,
        q,
        2536083340843168943765111218252959982070198762835983662926263033120061560823int,
        14922964998483646676629501313514766888265760859103602404415903627362542533130int,
    );
    lemma_remainder(
        (y.c0 * y.c1 + y.c1 * y.c0) as int,
        q,
        3169042381637085631969340255475657347465997364048155542326807191678134711207int,
        18998749271943822924477361489362255781501469145925655872932224557079413539979int,
    );
    lemma_remainder(
        (x.c0 * x.c0 - x.c1 * x.c1) as int,
        q,
        (-719652793862314264003180062754339384390891005191370485917012582332181624172int),
        21740980388926906057426892996120422348616989628855161897682971020692097960281int,
    );
    let square_c0 =
        21740980388926906057426892996120422348616989628855161897682971020692097960281int;
    lemma_remainder(
        (x.c0 * x.c1 + x.c1 * x.c0) as int,
        q,
        11467759629048686117894849069235246766403203637883258795037926137579317846074int,
        1837384903404616869280368109057824469904033017901941306968221631236329083166int,
    );
    let square_c1 = 1837384903404616869280368109057824469904033017901941306968221631236329083166int;
    lemma_remainder(
        (square_c0 * x.c0 - square_c1 * x.c1) as int,
        q,
        9813632369684871093633712214989803915475791572887658100852785874047213526619int,
        17325333118563567127851667797750321471171453547099705001540310225555311263340int,
    );
    let cube_c0 = 17325333118563567127851667797750321471171453547099705001540310225555311263340int;
    lemma_remainder(
        (square_c0 * x.c1 + square_c1 * x.c0) as int,
        q,
        12393342091016911084624211557957971527515431206414711678262613052091343774217int,
        18731819480823831763230454102224971938956392180592755584362846046169105903289int,
    );
    let cube_c1 = 18731819480823831763230454102224971938956392180592755584362846046169105903289int;
    lemma_remainder(
        cube_c0 + 19485874751759354771024239261021720505790618469301721065564631296452457478373int,
        q,
        1int,
        14922964998483646676629501313514766888265760859103602404415903627362542533130int,
    );
    lemma_remainder(
        cube_c1 + 266929791119991161246907387137283842545076965332900288569378510910307636690int,
        q,
        0int,
        18998749271943822924477361489362255781501469145925655872932224557079413539979int,
    );
}

/// The generator of G1 of BLS12-381 satisfies `y^2 = x^3 + 4`.
pub proof fn lemma_bls12_381_g1_generator_on_curve()
    ensures
        bls12_381_g1_on_curve(bls12_381_g1_generator()),
{
    let q = bls12_381_fq_modulus() as int;
    let x = bls12_381_g1_generator().x as int;
    let y = bls12_381_g1_generator().y as int;
    lemma_small_mod(x as nat, q as nat);
    lemma_small_mod(y as nat, q as nat);
    lemma_remainder(
        y * y,
        q,
        448299395449977984814647465226532234802097392444747352936811583784697280452528816341091110865257011929452385381441int,
        968112345466204497593495094225082465695320231616114492644572856830458035916047023522252439176025404895343838468694int,
    );
    lemma_remainder(
        x * x * x + 4int,
        q,
        12506572086599948795803714834700402461908899008324509230889159048871317058432751132642872816153641622235697324105511558129354284326022914587316904387271019305261651151766069641086896540984110221227184349512202493403066154411265619int,
        968112345466204497593495094225082465695320231616114492644572856830458035916047023522252439176025404895343838468694int,
    );
}

/// The generator of G2 of BLS12-381 satisfies `y^2 = x^3 + 4 + 4u`.
pub proof fn lemma_bls12_381_g2_generator_on_curve()
    ensures
        bls12_381_g2_on_curve(bls12_381_g2_generator()),
{
    let q = bls12_381_fq_modulus() as int;
    let x = bls12_381_g2_generator().x;
    let y = bls12_381_g2_generator().y;
    lemma_small_mod(x.c0, q as nat);
    lemma_small_mod(x.c1, q as nat);
    lemma_small_mod(y.c0, q as nat);
    lemma_small_mod(y.c1, q as nat);
    lemma_remainder(
        (y.c0 * y.c0 - y.c1 * y.c1) as int,
        q,
        769653147408281445113169083478488450427360956553115103997538935021656713236019351814729835179514992236299823227799int,
        3341065098200961989598748404381324054605449840948293400785922068969583005812936621662354076014412578129291257715488int,
    );
    lemma_remainder(
        (y.c0 * y.c1 + y.c1 * y.c0) as int,
        q,
        920112593327001293702634431030925998633615669285029598251206116795182435243652501146258765384384048401835281042154int,
        2133050398774337206222816300118221327418763981033055222570091459262312519047975404484651902003138703421962555090222int,
    );
    lemma_remainder(
        (x.c0 * x.c0 - x.c1 * x.c1) as int,
        q,
        (-2307101746343349441397132640942538866005989634821407730729666912307965706339415357844094379380248192653279617395734int),
        1997086149283677522843833040423074048426674013790346437450988890364808601048656494674186077061491944389142492819694int,
    );
    let square_c0 =
        1997086149283677522843833040423074048426674013790346437450988890364808601048656494674186077061491944389142492819694int;
    lemma_remainder(
        (x.c0 * x.c1 + x.c1 * x.c0) as int,
        q,
        539156959002226145823918830363182587150807445341627006294570362346543989384382929038185007307289130469795964504792int,
        3113349101563180256960455051481244719726682130931247942710023183696345206282753395927436272834951815958170074391256int,
    );
    let square_c1 =
        3113349101563180256960455051481244719726682130931247942710023183696345206282753395927436272834951815958170074391256int;
    lemma_remainder(
        (square_c0 * x.c0 - square_c1 * x.c1) as int,
        q,
        (-2203625029649337589331873636998449213342822920670497590088041737816513384605556872056014868680409618685944567101716int),
        3341065098200961989598748404381324054605449840948293400785922068969583005812936621662354076014412578129291257715484int,
    );
    let cube_c0 =
        3341065098200961989598748404381324054605449840948293400785922068969583005812936621662354076014412578129291257715484int;
    lemma_remainder(
        (square_c0 * x.c1 + square_c1 * x.c0) as int,
        q,
        1800779319864219997551550246386359168341489456470417587632747512024922571484692265604262785100379537891197556230062int,
        2133050398774337206222816300118221327418763981033055222570091459262312519047975404484651902003138703421962555090218int,
    );
    let cube_c1 =
        2133050398774337206222816300118221327418763981033055222570091459262312519047975404484651902003138703421962555090218int;
    lemma_remainder(
        cube_c0 + 4int,
        q,
        0int,
        3341065098200961989598748404381324054605449840948293400785922068969583005812936621662354076014412578129291257715488int,
    );
    lemma_remainder(
        cube_c1 + 4int,
        q,
        0int,
        2133050398774337206222816300118221327418763981033055222570091459262312519047975404484651902003138703421962555090222int,
    );
}

} // verus!
