//! Fermat's little theorem for the Goldilocks prime, built from a
//! generator certificate: the powers of 7 have full order `p - 1`, so they
//! run through every nonzero residue, and every residue therefore satisfies
//! `a^(p-1) = 1 (mod p)`.

use vstd::prelude::*;
use vstd::arithmetic::div_mod::{
    lemma_fundamental_div_mod, lemma_fundamental_div_mod_converse, lemma_mod_multiples_vanish,
    lemma_mod_self_0, lemma_mul_mod_noop_general, lemma_mul_mod_noop_left,
    lemma_mul_mod_noop_right, lemma_small_mod,
};
use vstd::arithmetic::power::{
    lemma1_pow, lemma_pow0, lemma_pow1, lemma_pow_adds, lemma_pow_mod_noop, lemma_pow_multiplies,
    pow,
};

use vstd::relations::injective_on;
use vstd::set_lib::{lemma_int_range, lemma_len_subset, lemma_map_size, set_int_range};

use crate::base::PRIME;

verus! {

/// Powers multiply under the modulus: from the residues of two powers of a
/// base, the residue of the power at the summed exponent.
proof fn lemma_pow_mul_mod(b: int, e1: nat, e2: nat, v1: int, v2: int, w: int)
    requires
        pow(b, e1) % (PRIME as int) == v1,
        pow(b, e2) % (PRIME as int) == v2,
        (v1 * v2) % (PRIME as int) == w,
    ensures
        pow(b, (e1 + e2) as nat) % (PRIME as int) == w,
{
    lemma_pow_adds(b, e1, e2);
    lemma_mul_mod_noop_general(pow(b, e1), pow(b, e2), PRIME as int);
}

/// The certificate of the generator 7: its power at `p - 1` is one, and its
/// power at `(p - 1) / q` is not, for every prime factor `q` of `p - 1`.
#[verifier::rlimit(100)]
#[verifier::spinoff_prover]
proof fn lemma_generator_certificate()
    ensures
        pow(7, 18446744069414584320) % (PRIME as int) == 1,  // p - 1
        pow(7, 9223372034707292160) % (PRIME as int) == 18446744069414584320,  // (p - 1) / 2
        pow(7, 6148914689804861440) % (PRIME as int) == 18446744065119617025,  // (p - 1) / 3
        pow(7, 3689348813882916864) % (PRIME as int) == 1373043270956696022,  // (p - 1) / 5
        pow(7, 1085102592318504960) % (PRIME as int) == 16301593560560007290,  // (p - 1) / 17
        pow(7, 71777214277877760) % (PRIME as int) == 995085315851368103,  // (p - 1) / 257
        pow(7, 281470681743360) % (PRIME as int) == 8478886009461009681,  // (p - 1) / 65537
{
    // the squaring chain: pow(7, 2^k) mod p
    lemma_pow1(7);
    lemma_small_mod(7, PRIME as nat);
    lemma_pow_mul_mod(7, 1, 1, 7, 7, 49);
    lemma_pow_mul_mod(7, 2, 2, 49, 49, 2401);
    lemma_pow_mul_mod(7, 4, 4, 2401, 2401, 5764801);
    lemma_pow_mul_mod(7, 8, 8, 5764801, 5764801, 33232930569601);
    lemma_pow_mul_mod(7, 16, 16, 33232930569601, 33232930569601, 3732854072722565977);
    lemma_pow_mul_mod(7, 32, 32, 3732854072722565977, 3732854072722565977, 11250886851934520606);
    lemma_pow_mul_mod(7, 64, 64, 11250886851934520606, 11250886851934520606, 12159723539389677939);
    lemma_pow_mul_mod(7, 128, 128, 12159723539389677939, 12159723539389677939, 1536671775522476176);
    lemma_pow_mul_mod(7, 256, 256, 1536671775522476176, 1536671775522476176, 18371408314118145657);
    lemma_pow_mul_mod(7, 512, 512, 18371408314118145657, 18371408314118145657, 2431605942540367610);
    lemma_pow_mul_mod(7, 1024, 1024, 2431605942540367610, 2431605942540367610, 6358221588783459004);
    lemma_pow_mul_mod(7, 2048, 2048, 6358221588783459004, 6358221588783459004, 10083885515493449909);
    lemma_pow_mul_mod(7, 4096, 4096, 10083885515493449909, 10083885515493449909, 15094611910849701842);
    lemma_pow_mul_mod(7, 8192, 8192, 15094611910849701842, 15094611910849701842, 18060412910171584788);
    lemma_pow_mul_mod(7, 16384, 16384, 18060412910171584788, 18060412910171584788, 10529651373896570371);
    lemma_pow_mul_mod(7, 32768, 32768, 10529651373896570371, 10529651373896570371, 11156834669773791359);
    lemma_pow_mul_mod(7, 65536, 65536, 11156834669773791359, 11156834669773791359, 11840798296997857860);
    lemma_pow_mul_mod(7, 131072, 131072, 11840798296997857860, 11840798296997857860, 1447330804268045396);
    lemma_pow_mul_mod(7, 262144, 262144, 1447330804268045396, 1447330804268045396, 15265864706138236984);
    lemma_pow_mul_mod(7, 524288, 524288, 15265864706138236984, 15265864706138236984, 12990112920302977158);
    lemma_pow_mul_mod(7, 1048576, 1048576, 12990112920302977158, 12990112920302977158, 16491641580159807679);
    lemma_pow_mul_mod(7, 2097152, 2097152, 16491641580159807679, 16491641580159807679, 17642952523097762870);
    lemma_pow_mul_mod(7, 4194304, 4194304, 17642952523097762870, 17642952523097762870, 4419967652436713981);
    lemma_pow_mul_mod(7, 8388608, 8388608, 4419967652436713981, 4419967652436713981, 7206579306846404579);
    lemma_pow_mul_mod(7, 16777216, 16777216, 7206579306846404579, 7206579306846404579, 17869454728573311546);
    lemma_pow_mul_mod(7, 33554432, 33554432, 17869454728573311546, 17869454728573311546, 4919185416341570378);
    lemma_pow_mul_mod(7, 67108864, 67108864, 4919185416341570378, 4919185416341570378, 14445320067108370181);
    lemma_pow_mul_mod(7, 134217728, 134217728, 14445320067108370181, 14445320067108370181, 17666966662873528270);
    lemma_pow_mul_mod(7, 268435456, 268435456, 17666966662873528270, 17666966662873528270, 5473358340599679662);
    lemma_pow_mul_mod(7, 536870912, 536870912, 5473358340599679662, 5473358340599679662, 4120449531758749877);
    lemma_pow_mul_mod(7, 1073741824, 1073741824, 4120449531758749877, 4120449531758749877, 17380019310548783236);
    lemma_pow_mul_mod(7, 2147483648, 2147483648, 17380019310548783236, 17380019310548783236, 12275445934081160404);
    lemma_pow_mul_mod(7, 4294967296, 4294967296, 12275445934081160404, 12275445934081160404, 4756475762779100925);
    lemma_pow_mul_mod(7, 8589934592, 8589934592, 4756475762779100925, 4756475762779100925, 8312008622371998338);
    lemma_pow_mul_mod(7, 17179869184, 17179869184, 8312008622371998338, 8312008622371998338, 3688660304411827445);
    lemma_pow_mul_mod(7, 34359738368, 34359738368, 3688660304411827445, 3688660304411827445, 6534114114080170934);
    lemma_pow_mul_mod(7, 68719476736, 68719476736, 6534114114080170934, 6534114114080170934, 12241777603010464820);
    lemma_pow_mul_mod(7, 137438953472, 137438953472, 12241777603010464820, 12241777603010464820, 6822456961749002749);
    lemma_pow_mul_mod(7, 274877906944, 274877906944, 6822456961749002749, 6822456961749002749, 14740284407083446365);
    lemma_pow_mul_mod(7, 549755813888, 549755813888, 14740284407083446365, 14740284407083446365, 14198376421529404772);
    lemma_pow_mul_mod(7, 1099511627776, 1099511627776, 14198376421529404772, 14198376421529404772, 16372603252271478917);
    lemma_pow_mul_mod(7, 2199023255552, 2199023255552, 16372603252271478917, 16372603252271478917, 6094962593300533783);
    lemma_pow_mul_mod(7, 4398046511104, 4398046511104, 6094962593300533783, 6094962593300533783, 12855798221536971597);
    lemma_pow_mul_mod(7, 8796093022208, 8796093022208, 12855798221536971597, 12855798221536971597, 4570035464479216815);
    lemma_pow_mul_mod(7, 17592186044416, 17592186044416, 4570035464479216815, 4570035464479216815, 13312966101283008305);
    lemma_pow_mul_mod(7, 35184372088832, 35184372088832, 13312966101283008305, 13312966101283008305, 17717521521350689785);
    lemma_pow_mul_mod(7, 70368744177664, 70368744177664, 17717521521350689785, 17717521521350689785, 2579852125121816621);
    lemma_pow_mul_mod(7, 140737488355328, 140737488355328, 2579852125121816621, 2579852125121816621, 5647278486080789199);
    lemma_pow_mul_mod(7, 281474976710656, 281474976710656, 5647278486080789199, 5647278486080789199, 10087368686013698258);
    lemma_pow_mul_mod(7, 562949953421312, 562949953421312, 10087368686013698258, 10087368686013698258, 13705325519725492466);
    lemma_pow_mul_mod(7, 1125899906842624, 1125899906842624, 13705325519725492466, 13705325519725492466, 16094056529116650251);
    lemma_pow_mul_mod(7, 2251799813685248, 2251799813685248, 16094056529116650251, 16094056529116650251, 839801632116640137);
    lemma_pow_mul_mod(7, 4503599627370496, 4503599627370496, 839801632116640137, 839801632116640137, 809314592928515922);
    lemma_pow_mul_mod(7, 9007199254740992, 9007199254740992, 809314592928515922, 809314592928515922, 17285123329644556226);
    lemma_pow_mul_mod(7, 18014398509481984, 18014398509481984, 17285123329644556226, 17285123329644556226, 13607546115301327129);
    lemma_pow_mul_mod(7, 36028797018963968, 36028797018963968, 13607546115301327129, 13607546115301327129, 8495382904317313497);
    lemma_pow_mul_mod(7, 72057594037927936, 72057594037927936, 8495382904317313497, 8495382904317313497, 7711545778172399998);
    lemma_pow_mul_mod(7, 144115188075855872, 144115188075855872, 7711545778172399998, 7711545778172399998, 14653638268244293248);
    lemma_pow_mul_mod(7, 288230376151711744, 288230376151711744, 14653638268244293248, 14653638268244293248, 4449853170003902284);
    lemma_pow_mul_mod(7, 576460752303423488, 576460752303423488, 4449853170003902284, 4449853170003902284, 16684733269283358279);
    lemma_pow_mul_mod(7, 1152921504606846976, 1152921504606846976, 16684733269283358279, 16684733269283358279, 10831206780798498119);
    lemma_pow_mul_mod(7, 2305843009213693952, 2305843009213693952, 10831206780798498119, 10831206780798498119, 8050641074587903850);
    lemma_pow_mul_mod(7, 4611686018427387904, 4611686018427387904, 8050641074587903850, 8050641074587903850, 1066724758865801085);
    // pow(7, p - 1) mod p
    lemma_pow_mul_mod(7, 4294967296, 8589934592, 12275445934081160404, 4756475762779100925, 1279992132519201448);
    lemma_pow_mul_mod(7, 12884901888, 17179869184, 1279992132519201448, 8312008622371998338, 4549350404001778198);
    lemma_pow_mul_mod(7, 30064771072, 34359738368, 4549350404001778198, 3688660304411827445, 11274872323250451096);
    lemma_pow_mul_mod(7, 64424509440, 68719476736, 11274872323250451096, 6534114114080170934, 4304519570518954644);
    lemma_pow_mul_mod(7, 133143986176, 137438953472, 4304519570518954644, 12241777603010464820, 16394889243316335910);
    lemma_pow_mul_mod(7, 270582939648, 274877906944, 16394889243316335910, 6822456961749002749, 3679734199234472637);
    lemma_pow_mul_mod(7, 545460846592, 549755813888, 3679734199234472637, 14740284407083446365, 17588058450869219263);
    lemma_pow_mul_mod(7, 1095216660480, 1099511627776, 17588058450869219263, 14198376421529404772, 13474118253388618134);
    lemma_pow_mul_mod(7, 2194728288256, 2199023255552, 13474118253388618134, 16372603252271478917, 3424231069583294856);
    lemma_pow_mul_mod(7, 4393751543808, 4398046511104, 3424231069583294856, 6094962593300533783, 3212278696635431411);
    lemma_pow_mul_mod(7, 8791798054912, 8796093022208, 3212278696635431411, 12855798221536971597, 8674491644268464123);
    lemma_pow_mul_mod(7, 17587891077120, 17592186044416, 8674491644268464123, 4570035464479216815, 7614671795105477622);
    lemma_pow_mul_mod(7, 35180077121536, 35184372088832, 7614671795105477622, 13312966101283008305, 565825823434018290);
    lemma_pow_mul_mod(7, 70364449210368, 70368744177664, 565825823434018290, 17717521521350689785, 1614949354278806530);
    lemma_pow_mul_mod(7, 140733193388032, 140737488355328, 1614949354278806530, 2579852125121816621, 8478886009461009681);
    lemma_pow_mul_mod(7, 281470681743360, 281474976710656, 8478886009461009681, 5647278486080789199, 16512774553975191984);
    lemma_pow_mul_mod(7, 562945658454016, 562949953421312, 16512774553975191984, 10087368686013698258, 10879306936227360953);
    lemma_pow_mul_mod(7, 1125895611875328, 1125899906842624, 10879306936227360953, 13705325519725492466, 14499380711312378497);
    lemma_pow_mul_mod(7, 2251795518717952, 2251799813685248, 14499380711312378497, 16094056529116650251, 13620044171060547184);
    lemma_pow_mul_mod(7, 4503595332403200, 4503599627370496, 13620044171060547184, 839801632116640137, 16026704985743549979);
    lemma_pow_mul_mod(7, 9007194959773696, 9007199254740992, 16026704985743549979, 809314592928515922, 13171580951127167984);
    lemma_pow_mul_mod(7, 18014394214514688, 18014398509481984, 13171580951127167984, 17285123329644556226, 10671780847451750837);
    lemma_pow_mul_mod(7, 36028792723996672, 36028797018963968, 10671780847451750837, 13607546115301327129, 8784566205410244656);
    lemma_pow_mul_mod(7, 72057589742960640, 72057594037927936, 8784566205410244656, 8495382904317313497, 13929018800122643280);
    lemma_pow_mul_mod(7, 144115183780888576, 144115188075855872, 13929018800122643280, 7711545778172399998, 2172118419930080758);
    lemma_pow_mul_mod(7, 288230371856744448, 288230376151711744, 2172118419930080758, 14653638268244293248, 16616023290509522987);
    lemma_pow_mul_mod(7, 576460748008456192, 576460752303423488, 16616023290509522987, 4449853170003902284, 5169155891321124232);
    lemma_pow_mul_mod(7, 1152921500311879680, 1152921504606846976, 5169155891321124232, 16684733269283358279, 4008130831684506902);
    lemma_pow_mul_mod(7, 2305843004918726656, 2305843009213693952, 4008130831684506902, 10831206780798498119, 1687683896074273784);
    lemma_pow_mul_mod(7, 4611686014132420608, 4611686018427387904, 1687683896074273784, 8050641074587903850, 7450758955135236374);
    lemma_pow_mul_mod(7, 9223372032559808512, 9223372036854775808, 7450758955135236374, 1066724758865801085, 1);
    // pow(7, (p - 1) / 2) mod p
    lemma_pow_mul_mod(7, 2147483648, 4294967296, 17380019310548783236, 12275445934081160404, 16341254035993852604);
    lemma_pow_mul_mod(7, 6442450944, 8589934592, 16341254035993852604, 4756475762779100925, 17838412189661013420);
    lemma_pow_mul_mod(7, 15032385536, 17179869184, 17838412189661013420, 8312008622371998338, 14553636398574310458);
    lemma_pow_mul_mod(7, 32212254720, 34359738368, 14553636398574310458, 3688660304411827445, 12914056198713337911);
    lemma_pow_mul_mod(7, 66571993088, 68719476736, 12914056198713337911, 6534114114080170934, 10709466607341495954);
    lemma_pow_mul_mod(7, 135291469824, 137438953472, 10709466607341495954, 12241777603010464820, 7500959378422514263);
    lemma_pow_mul_mod(7, 272730423296, 274877906944, 7500959378422514263, 6822456961749002749, 8965981650855844639);
    lemma_pow_mul_mod(7, 547608330240, 549755813888, 8965981650855844639, 14740284407083446365, 12986574462539434953);
    lemma_pow_mul_mod(7, 1097364144128, 1099511627776, 12986574462539434953, 14198376421529404772, 12658757672957790760);
    lemma_pow_mul_mod(7, 2196875771904, 2199023255552, 12658757672957790760, 16372603252271478917, 328486730228707336);
    lemma_pow_mul_mod(7, 4395899027456, 4398046511104, 328486730228707336, 6094962593300533783, 10989187623479390669);
    lemma_pow_mul_mod(7, 8793945538560, 8796093022208, 10989187623479390669, 12855798221536971597, 14744565892089108049);
    lemma_pow_mul_mod(7, 17590038560768, 17592186044416, 14744565892089108049, 4570035464479216815, 10977344643077333037);
    lemma_pow_mul_mod(7, 35182224605184, 35184372088832, 10977344643077333037, 13312966101283008305, 10862935977680770068);
    lemma_pow_mul_mod(7, 70366596694016, 70368744177664, 10862935977680770068, 17717521521350689785, 7318164361609642178);
    lemma_pow_mul_mod(7, 140735340871680, 140737488355328, 7318164361609642178, 2579852125121816621, 10123972320692110086);
    lemma_pow_mul_mod(7, 281472829227008, 281474976710656, 10123972320692110086, 5647278486080789199, 130724526948758986);
    lemma_pow_mul_mod(7, 562947805937664, 562949953421312, 130724526948758986, 10087368686013698258, 17661458235941421312);
    lemma_pow_mul_mod(7, 1125897759358976, 1125899906842624, 17661458235941421312, 13705325519725492466, 6339018849627109285);
    lemma_pow_mul_mod(7, 2251797666201600, 2251799813685248, 6339018849627109285, 16094056529116650251, 11012737045107515342);
    lemma_pow_mul_mod(7, 4503597479886848, 4503599627370496, 11012737045107515342, 839801632116640137, 14175618418188641576);
    lemma_pow_mul_mod(7, 9007197107257344, 9007199254740992, 14175618418188641576, 809314592928515922, 14962862707483549008);
    lemma_pow_mul_mod(7, 18014396361998336, 18014398509481984, 14962862707483549008, 17285123329644556226, 13017193425094701279);
    lemma_pow_mul_mod(7, 36028794871480320, 36028797018963968, 13017193425094701279, 13607546115301327129, 8024443007816062896);
    lemma_pow_mul_mod(7, 72057591890444288, 72057594037927936, 8024443007816062896, 8495382904317313497, 4925816364943579550);
    lemma_pow_mul_mod(7, 144115185928372224, 144115188075855872, 4925816364943579550, 7711545778172399998, 14525145177837493890);
    lemma_pow_mul_mod(7, 288230374004228096, 288230376151711744, 14525145177837493890, 14653638268244293248, 18298270339531944329);
    lemma_pow_mul_mod(7, 576460750155939840, 576460752303423488, 18298270339531944329, 4449853170003902284, 11853244195314237678);
    lemma_pow_mul_mod(7, 1152921502459363328, 1152921504606846976, 11853244195314237678, 16684733269283358279, 9827442270647231951);
    lemma_pow_mul_mod(7, 2305843007066210304, 2305843009213693952, 9827442270647231951, 10831206780798498119, 15846339274147123184);
    lemma_pow_mul_mod(7, 4611686016279904256, 4611686018427387904, 15846339274147123184, 8050641074587903850, 18446744069414584320);
    // pow(7, (p - 1) / 3) mod p
    lemma_pow_mul_mod(7, 4294967296, 17179869184, 12275445934081160404, 8312008622371998338, 7781028390488215464);
    lemma_pow_mul_mod(7, 21474836480, 68719476736, 7781028390488215464, 6534114114080170934, 8246665031048405574);
    lemma_pow_mul_mod(7, 90194313216, 274877906944, 8246665031048405574, 6822456961749002749, 4733570987445959623);
    lemma_pow_mul_mod(7, 365072220160, 1099511627776, 4733570987445959623, 14198376421529404772, 18361179848640336464);
    lemma_pow_mul_mod(7, 1464583847936, 4398046511104, 18361179848640336464, 6094962593300533783, 14539522463670894480);
    lemma_pow_mul_mod(7, 5862630359040, 17592186044416, 14539522463670894480, 4570035464479216815, 11310299617345086484);
    lemma_pow_mul_mod(7, 23454816403456, 70368744177664, 11310299617345086484, 17717521521350689785, 144820208228696286);
    lemma_pow_mul_mod(7, 93823560581120, 281474976710656, 144820208228696286, 5647278486080789199, 18342191855603989543);
    lemma_pow_mul_mod(7, 375298537291776, 1125899906842624, 18342191855603989543, 13705325519725492466, 16561037900262977897);
    lemma_pow_mul_mod(7, 1501198444134400, 4503599627370496, 16561037900262977897, 839801632116640137, 5709593261608934014);
    lemma_pow_mul_mod(7, 6004798071504896, 18014398509481984, 5709593261608934014, 17285123329644556226, 7802345761617692924);
    lemma_pow_mul_mod(7, 24019196580986880, 72057594037927936, 7802345761617692924, 8495382904317313497, 13093268643099712084);
    lemma_pow_mul_mod(7, 96076790618914816, 288230376151711744, 13093268643099712084, 14653638268244293248, 6515397714927682743);
    lemma_pow_mul_mod(7, 384307166770626560, 1152921504606846976, 6515397714927682743, 16684733269283358279, 11368723234197765731);
    lemma_pow_mul_mod(7, 1537228671377473536, 4611686018427387904, 11368723234197765731, 8050641074587903850, 18446744065119617025);
    // pow(7, (p - 1) / 5) mod p
    lemma_pow_mul_mod(7, 4294967296, 8589934592, 12275445934081160404, 4756475762779100925, 1279992132519201448);
    lemma_pow_mul_mod(7, 12884901888, 68719476736, 1279992132519201448, 6534114114080170934, 3320735505586735876);
    lemma_pow_mul_mod(7, 81604378624, 137438953472, 3320735505586735876, 12241777603010464820, 3080292546802250491);
    lemma_pow_mul_mod(7, 219043332096, 1099511627776, 3080292546802250491, 14198376421529404772, 8400513760699636444);
    lemma_pow_mul_mod(7, 1318554959872, 2199023255552, 8400513760699636444, 16372603252271478917, 8229424189471531445);
    lemma_pow_mul_mod(7, 3517578215424, 17592186044416, 8229424189471531445, 4570035464479216815, 5375412128173778784);
    lemma_pow_mul_mod(7, 21109764259840, 35184372088832, 5375412128173778784, 13312966101283008305, 13117622064007455443);
    lemma_pow_mul_mod(7, 56294136348672, 281474976710656, 13117622064007455443, 5647278486080789199, 11287908954693536686);
    lemma_pow_mul_mod(7, 337769113059328, 562949953421312, 11287908954693536686, 10087368686013698258, 3714462262458937287);
    lemma_pow_mul_mod(7, 900719066480640, 4503599627370496, 3714462262458937287, 839801632116640137, 659527408083819236);
    lemma_pow_mul_mod(7, 5404318693851136, 9007199254740992, 659527408083819236, 809314592928515922, 750328663734657815);
    lemma_pow_mul_mod(7, 14411517948592128, 72057594037927936, 750328663734657815, 8495382904317313497, 11749639948441203264);
    lemma_pow_mul_mod(7, 86469111986520064, 144115188075855872, 11749639948441203264, 7711545778172399998, 7734626918933084012);
    lemma_pow_mul_mod(7, 230584300062375936, 1152921504606846976, 7734626918933084012, 16684733269283358279, 14805977549627360091);
    lemma_pow_mul_mod(7, 1383505804669222912, 2305843009213693952, 14805977549627360091, 10831206780798498119, 1373043270956696022);
    // pow(7, (p - 1) / 17) mod p
    lemma_pow_mul_mod(7, 4294967296, 8589934592, 12275445934081160404, 4756475762779100925, 1279992132519201448);
    lemma_pow_mul_mod(7, 12884901888, 17179869184, 1279992132519201448, 8312008622371998338, 4549350404001778198);
    lemma_pow_mul_mod(7, 30064771072, 34359738368, 4549350404001778198, 3688660304411827445, 11274872323250451096);
    lemma_pow_mul_mod(7, 64424509440, 1099511627776, 11274872323250451096, 14198376421529404772, 4720006745175264624);
    lemma_pow_mul_mod(7, 1163936137216, 2199023255552, 4720006745175264624, 16372603252271478917, 10300021345978283624);
    lemma_pow_mul_mod(7, 3362959392768, 4398046511104, 10300021345978283624, 6094962593300533783, 2922959029587764863);
    lemma_pow_mul_mod(7, 7761005903872, 8796093022208, 2922959029587764863, 12855798221536971597, 17081009302073449373);
    lemma_pow_mul_mod(7, 16557098926080, 281474976710656, 17081009302073449373, 5647278486080789199, 11460834259182216823);
    lemma_pow_mul_mod(7, 298032075636736, 562949953421312, 11460834259182216823, 10087368686013698258, 4233525944401487686);
    lemma_pow_mul_mod(7, 860982029058048, 1125899906842624, 4233525944401487686, 13705325519725492466, 331254610867718709);
    lemma_pow_mul_mod(7, 1986881935900672, 2251799813685248, 331254610867718709, 16094056529116650251, 15021829110735092015);
    lemma_pow_mul_mod(7, 4238681749585920, 72057594037927936, 15021829110735092015, 8495382904317313497, 13781439335062557111);
    lemma_pow_mul_mod(7, 76296275787513856, 144115188075855872, 13781439335062557111, 7711545778172399998, 13651804369712559996);
    lemma_pow_mul_mod(7, 220411463863369728, 288230376151711744, 13651804369712559996, 14653638268244293248, 6511077653398803190);
    lemma_pow_mul_mod(7, 508641840015081472, 576460752303423488, 6511077653398803190, 4449853170003902284, 16301593560560007290);
    // pow(7, (p - 1) / 257) mod p
    lemma_pow_mul_mod(7, 4294967296, 8589934592, 12275445934081160404, 4756475762779100925, 1279992132519201448);
    lemma_pow_mul_mod(7, 12884901888, 17179869184, 1279992132519201448, 8312008622371998338, 4549350404001778198);
    lemma_pow_mul_mod(7, 30064771072, 34359738368, 4549350404001778198, 3688660304411827445, 11274872323250451096);
    lemma_pow_mul_mod(7, 64424509440, 68719476736, 11274872323250451096, 6534114114080170934, 4304519570518954644);
    lemma_pow_mul_mod(7, 133143986176, 137438953472, 4304519570518954644, 12241777603010464820, 16394889243316335910);
    lemma_pow_mul_mod(7, 270582939648, 274877906944, 16394889243316335910, 6822456961749002749, 3679734199234472637);
    lemma_pow_mul_mod(7, 545460846592, 549755813888, 3679734199234472637, 14740284407083446365, 17588058450869219263);
    lemma_pow_mul_mod(7, 1095216660480, 281474976710656, 17588058450869219263, 5647278486080789199, 14827937047230331302);
    lemma_pow_mul_mod(7, 282570193371136, 562949953421312, 14827937047230331302, 10087368686013698258, 11641541232969588010);
    lemma_pow_mul_mod(7, 845520146792448, 1125899906842624, 11641541232969588010, 13705325519725492466, 10121517038197293391);
    lemma_pow_mul_mod(7, 1971420053635072, 2251799813685248, 10121517038197293391, 16094056529116650251, 17072541970134968783);
    lemma_pow_mul_mod(7, 4223219867320320, 4503599627370496, 17072541970134968783, 839801632116640137, 12352856845441134796);
    lemma_pow_mul_mod(7, 8726819494690816, 9007199254740992, 12352856845441134796, 809314592928515922, 2236448923518320320);
    lemma_pow_mul_mod(7, 17734018749431808, 18014398509481984, 2236448923518320320, 17285123329644556226, 5366285883533252671);
    lemma_pow_mul_mod(7, 35748417258913792, 36028797018963968, 5366285883533252671, 13607546115301327129, 995085315851368103);
    // pow(7, (p - 1) / 65537) mod p
    lemma_pow_mul_mod(7, 4294967296, 8589934592, 12275445934081160404, 4756475762779100925, 1279992132519201448);
    lemma_pow_mul_mod(7, 12884901888, 17179869184, 1279992132519201448, 8312008622371998338, 4549350404001778198);
    lemma_pow_mul_mod(7, 30064771072, 34359738368, 4549350404001778198, 3688660304411827445, 11274872323250451096);
    lemma_pow_mul_mod(7, 64424509440, 68719476736, 11274872323250451096, 6534114114080170934, 4304519570518954644);
    lemma_pow_mul_mod(7, 133143986176, 137438953472, 4304519570518954644, 12241777603010464820, 16394889243316335910);
    lemma_pow_mul_mod(7, 270582939648, 274877906944, 16394889243316335910, 6822456961749002749, 3679734199234472637);
    lemma_pow_mul_mod(7, 545460846592, 549755813888, 3679734199234472637, 14740284407083446365, 17588058450869219263);
    lemma_pow_mul_mod(7, 1095216660480, 1099511627776, 17588058450869219263, 14198376421529404772, 13474118253388618134);
    lemma_pow_mul_mod(7, 2194728288256, 2199023255552, 13474118253388618134, 16372603252271478917, 3424231069583294856);
    lemma_pow_mul_mod(7, 4393751543808, 4398046511104, 3424231069583294856, 6094962593300533783, 3212278696635431411);
    lemma_pow_mul_mod(7, 8791798054912, 8796093022208, 3212278696635431411, 12855798221536971597, 8674491644268464123);
    lemma_pow_mul_mod(7, 17587891077120, 17592186044416, 8674491644268464123, 4570035464479216815, 7614671795105477622);
    lemma_pow_mul_mod(7, 35180077121536, 35184372088832, 7614671795105477622, 13312966101283008305, 565825823434018290);
    lemma_pow_mul_mod(7, 70364449210368, 70368744177664, 565825823434018290, 17717521521350689785, 1614949354278806530);
    lemma_pow_mul_mod(7, 140733193388032, 140737488355328, 1614949354278806530, 2579852125121816621, 8478886009461009681);
}

/// The greatest common divisor, by Euclid's recursion.
spec fn gcd(a: nat, b: nat) -> nat
    decreases b,
{
    if b == 0 {
        a
    } else {
        gcd(b, a % b)
    }
}

/// A common divisor divides every integer combination.
proof fn lemma_divides_linear(g: int, x: int, y: int, c: int)
    requires
        g > 0,
        x % g == 0,
        y % g == 0,
    ensures
        (c * x + y) % g == 0,
{
    lemma_fundamental_div_mod(x, g);
    lemma_fundamental_div_mod(y, g);
    assert(c * x + y == g * (c * (x / g) + y / g)) by (nonlinear_arith)
        requires
            x == g * (x / g),
            y == g * (y / g),
    ;
    lemma_mod_multiples_vanish(c * (x / g) + y / g, 0, g);
    lemma_small_mod(0, g as nat);
}

/// The gcd is positive and divides both arguments.
proof fn lemma_gcd_divides(a: nat, b: nat)
    requires
        a > 0,
    ensures
        gcd(a, b) > 0,
        (a as int) % (gcd(a, b) as int) == 0,
        (b as int) % (gcd(a, b) as int) == 0,
    decreases b,
{
    if b == 0 {
        lemma_mod_self_0(a as int);
        lemma_small_mod(0, a);
    } else {
        lemma_gcd_divides(b, a % b);
        let g = gcd(b, a % b) as int;
        lemma_fundamental_div_mod(a as int, b as int);
        lemma_divides_linear(g, b as int, (a % b) as int, (a as int) / (b as int));
        assert((a as int) / (b as int) * (b as int) + (a % b) == (b as int) * ((a as int) / (
        b as int)) + (a % b)) by (nonlinear_arith);
    }
}

/// A period of a power stays a period at every multiple.
proof fn lemma_pow_period_multiple(w: int, d: nat, k: nat)
    requires
        pow(w, d) % (PRIME as int) == 1,
    ensures
        pow(w, (k * d) as nat) % (PRIME as int) == 1,
    decreases k,
{
    if k == 0 {
        lemma_pow0(w);
        lemma_small_mod(1, PRIME as nat);
    } else {
        lemma_pow_period_multiple(w, d, (k - 1) as nat);
        lemma_small_mod(1, PRIME as nat);
        lemma_pow_mul_mod(w, ((k - 1) * d) as nat, d, 1, 1, 1);
        assert((k - 1) * d + d == k * d) by (nonlinear_arith);
    }
}

/// Exponents reduce modulo a period.
proof fn lemma_pow_mod_period(w: int, d: nat, e: nat)
    requires
        d > 0,
        pow(w, d) % (PRIME as int) == 1,
    ensures
        pow(w, e) % (PRIME as int) == pow(w, (e % d) as nat) % (PRIME as int),
{
    let q = (e as int) / (d as int);
    let r = (e as int) % (d as int);
    lemma_fundamental_div_mod(e as int, d as int);
    assert((d as int) * q == q * (d as int)) by (nonlinear_arith);
    lemma_pow_period_multiple(w, d, q as nat);
    lemma_pow_adds(w, (q * d) as nat, r as nat);
    lemma_mul_mod_noop_left(pow(w, (q * d) as nat), pow(w, r as nat), PRIME as int);
}

/// A common period of a power holds at the gcd of two periods.
proof fn lemma_gcd_pow(w: int, a: nat, b: nat)
    requires
        a > 0,
        pow(w, a) % (PRIME as int) == 1,
        pow(w, b) % (PRIME as int) == 1,
    ensures
        pow(w, gcd(a, b)) % (PRIME as int) == 1,
    decreases b,
{
    if b == 0 {
    } else {
        lemma_pow_mod_period(w, b, a);
        lemma_gcd_pow(w, b, a % b);
    }
}

/// The extended Euclidean witnesses: a combination of the arguments that
/// reaches their gcd.
proof fn lemma_bezout(a: nat, b: nat) -> (r: (int, int))
    requires
        a > 0,
    ensures
        a * r.0 + b * r.1 == gcd(a, b),
    decreases b,
{
    if b == 0 {
        assert(a * 1int + b * 0int == gcd(a, b)) by (nonlinear_arith)
            requires
                b == 0 && gcd(a, b) == a,
        ;
        (1int, 0int)
    } else {
        let (x1, y1) = lemma_bezout(b, a % b);
        let q = (a as int) / (b as int);
        lemma_fundamental_div_mod(a as int, b as int);
        assert(b * x1 + ((a as int) - (b as int) * q) * y1 == a * y1 + b * (x1 - q * y1))
            by (nonlinear_arith);
        (y1, x1 - q * y1)
    }
}

/// A number coprime to `q` that divides `q * x` divides `x`.
proof fn lemma_coprime_divides(c: nat, q: nat, x: nat)
    requires
        c > 0,
        q > 0,
        gcd(c, q) == 1,
        ((q * x) as int) % (c as int) == 0,
    ensures
        (x as int) % (c as int) == 0,
{
    let (u, v) = lemma_bezout(c, q);
    let k = ((q * x) as int) / (c as int);
    lemma_fundamental_div_mod((q * x) as int, c as int);
    assert(x == (c as int) * (x * u + k * v)) by (nonlinear_arith)
        requires
            (c as int) * u + (q as int) * v == 1 && (q * x) as int == (c as int) * k,
    ;
    lemma_mod_multiples_vanish(x * u + k * v, 0, c as int);
    lemma_small_mod(0, c);
}

/// Primality: no divisor strictly between one and the number.
spec fn is_prime(q: int) -> bool {
    q >= 2 && forall|d: int| 2 <= d < q ==> #[trigger] (q % d) != 0
}

/// No divisor of `q` lies in `[2, r]`.
spec fn no_divisor_upto(q: int, r: int) -> bool
    decreases r,
{
    if r < 2 {
        true
    } else {
        q % r != 0 && no_divisor_upto(q, r - 1)
    }
}

proof fn lemma_no_divisor_sound(q: int, r: int, d: int)
    requires
        no_divisor_upto(q, r),
        2 <= d <= r,
    ensures
        q % d != 0,
    decreases r,
{
    if d < r {
        lemma_no_divisor_sound(q, r - 1, d);
    }
}

/// Trial division up to the square root settles primality: a divisor past
/// the root would pair with one below it.
proof fn lemma_trial_division(q: int, r: int)
    requires
        q >= 2,
        r >= 1,
        r * r >= q,
        no_divisor_upto(q, r),
    ensures
        is_prime(q),
{
    assert forall|d: int| 2 <= d < q implies #[trigger] (q % d) != 0 by {
        if q % d == 0 {
            if d <= r {
                lemma_no_divisor_sound(q, r, d);
            } else {
                let e = q / d;
                lemma_fundamental_div_mod(q, d);
                assert(e >= 2) by (nonlinear_arith)
                    requires
                        q == d * e + 0 && 2 <= d < q && q >= 2 && e >= 0,
                ;
                assert(e <= r) by (nonlinear_arith)
                    requires
                        d > r && q == d * e && r * r >= q && e >= 2 && r >= 1,
                ;
                assert(q == e * d + 0) by (nonlinear_arith)
                    requires
                        q == d * e,
                ;
                lemma_fundamental_div_mod_converse(q, e, d, 0);
                lemma_no_divisor_sound(q, r, e);
            }
        }
    }
}

/// The five odd prime factors of `p - 1`, each settled by trial division.
proof fn lemma_small_primes()
    ensures
        is_prime(3),
        is_prime(5),
        is_prime(17),
        is_prime(257),
        is_prime(65537),
{
    assert(no_divisor_upto(3, 1));
    assert(no_divisor_upto(3, 2));
    assert(no_divisor_upto(5, 1));
    assert(no_divisor_upto(5, 2));
    assert(no_divisor_upto(5, 3));
    assert(no_divisor_upto(17, 1));
    assert(no_divisor_upto(17, 2));
    assert(no_divisor_upto(17, 3));
    assert(no_divisor_upto(17, 4));
    assert(no_divisor_upto(17, 5));
    assert(no_divisor_upto(257, 1));
    assert(no_divisor_upto(257, 2));
    assert(no_divisor_upto(257, 3));
    assert(no_divisor_upto(257, 4));
    assert(no_divisor_upto(257, 5));
    assert(no_divisor_upto(257, 6));
    assert(no_divisor_upto(257, 7));
    assert(no_divisor_upto(257, 8));
    assert(no_divisor_upto(257, 9));
    assert(no_divisor_upto(257, 10));
    assert(no_divisor_upto(257, 11));
    assert(no_divisor_upto(257, 12));
    assert(no_divisor_upto(257, 13));
    assert(no_divisor_upto(257, 14));
    assert(no_divisor_upto(257, 15));
    assert(no_divisor_upto(257, 16));
    assert(no_divisor_upto(257, 17));
    lemma_trial_division(3, 2);
    lemma_trial_division(5, 3);
    lemma_trial_division(17, 5);
    lemma_trial_division(257, 17);
    lemma_no_divisor_65537();
    lemma_trial_division(65537, 257);
}

/// Trial division for 65537, one divisor candidate a step.
#[verifier::rlimit(100)]
#[verifier::spinoff_prover]
proof fn lemma_no_divisor_65537()
    ensures
        no_divisor_upto(65537, 257),
{
    assert(no_divisor_upto(65537, 1));
    assert(no_divisor_upto(65537, 2));
    assert(no_divisor_upto(65537, 3));
    assert(no_divisor_upto(65537, 4));
    assert(no_divisor_upto(65537, 5));
    assert(no_divisor_upto(65537, 6));
    assert(no_divisor_upto(65537, 7));
    assert(no_divisor_upto(65537, 8));
    assert(no_divisor_upto(65537, 9));
    assert(no_divisor_upto(65537, 10));
    assert(no_divisor_upto(65537, 11));
    assert(no_divisor_upto(65537, 12));
    assert(no_divisor_upto(65537, 13));
    assert(no_divisor_upto(65537, 14));
    assert(no_divisor_upto(65537, 15));
    assert(no_divisor_upto(65537, 16));
    assert(no_divisor_upto(65537, 17));
    assert(no_divisor_upto(65537, 18));
    assert(no_divisor_upto(65537, 19));
    assert(no_divisor_upto(65537, 20));
    assert(no_divisor_upto(65537, 21));
    assert(no_divisor_upto(65537, 22));
    assert(no_divisor_upto(65537, 23));
    assert(no_divisor_upto(65537, 24));
    assert(no_divisor_upto(65537, 25));
    assert(no_divisor_upto(65537, 26));
    assert(no_divisor_upto(65537, 27));
    assert(no_divisor_upto(65537, 28));
    assert(no_divisor_upto(65537, 29));
    assert(no_divisor_upto(65537, 30));
    assert(no_divisor_upto(65537, 31));
    assert(no_divisor_upto(65537, 32));
    assert(no_divisor_upto(65537, 33));
    assert(no_divisor_upto(65537, 34));
    assert(no_divisor_upto(65537, 35));
    assert(no_divisor_upto(65537, 36));
    assert(no_divisor_upto(65537, 37));
    assert(no_divisor_upto(65537, 38));
    assert(no_divisor_upto(65537, 39));
    assert(no_divisor_upto(65537, 40));
    assert(no_divisor_upto(65537, 41));
    assert(no_divisor_upto(65537, 42));
    assert(no_divisor_upto(65537, 43));
    assert(no_divisor_upto(65537, 44));
    assert(no_divisor_upto(65537, 45));
    assert(no_divisor_upto(65537, 46));
    assert(no_divisor_upto(65537, 47));
    assert(no_divisor_upto(65537, 48));
    assert(no_divisor_upto(65537, 49));
    assert(no_divisor_upto(65537, 50));
    assert(no_divisor_upto(65537, 51));
    assert(no_divisor_upto(65537, 52));
    assert(no_divisor_upto(65537, 53));
    assert(no_divisor_upto(65537, 54));
    assert(no_divisor_upto(65537, 55));
    assert(no_divisor_upto(65537, 56));
    assert(no_divisor_upto(65537, 57));
    assert(no_divisor_upto(65537, 58));
    assert(no_divisor_upto(65537, 59));
    assert(no_divisor_upto(65537, 60));
    assert(no_divisor_upto(65537, 61));
    assert(no_divisor_upto(65537, 62));
    assert(no_divisor_upto(65537, 63));
    assert(no_divisor_upto(65537, 64));
    assert(no_divisor_upto(65537, 65));
    assert(no_divisor_upto(65537, 66));
    assert(no_divisor_upto(65537, 67));
    assert(no_divisor_upto(65537, 68));
    assert(no_divisor_upto(65537, 69));
    assert(no_divisor_upto(65537, 70));
    assert(no_divisor_upto(65537, 71));
    assert(no_divisor_upto(65537, 72));
    assert(no_divisor_upto(65537, 73));
    assert(no_divisor_upto(65537, 74));
    assert(no_divisor_upto(65537, 75));
    assert(no_divisor_upto(65537, 76));
    assert(no_divisor_upto(65537, 77));
    assert(no_divisor_upto(65537, 78));
    assert(no_divisor_upto(65537, 79));
    assert(no_divisor_upto(65537, 80));
    assert(no_divisor_upto(65537, 81));
    assert(no_divisor_upto(65537, 82));
    assert(no_divisor_upto(65537, 83));
    assert(no_divisor_upto(65537, 84));
    assert(no_divisor_upto(65537, 85));
    assert(no_divisor_upto(65537, 86));
    assert(no_divisor_upto(65537, 87));
    assert(no_divisor_upto(65537, 88));
    assert(no_divisor_upto(65537, 89));
    assert(no_divisor_upto(65537, 90));
    assert(no_divisor_upto(65537, 91));
    assert(no_divisor_upto(65537, 92));
    assert(no_divisor_upto(65537, 93));
    assert(no_divisor_upto(65537, 94));
    assert(no_divisor_upto(65537, 95));
    assert(no_divisor_upto(65537, 96));
    assert(no_divisor_upto(65537, 97));
    assert(no_divisor_upto(65537, 98));
    assert(no_divisor_upto(65537, 99));
    assert(no_divisor_upto(65537, 100));
    assert(no_divisor_upto(65537, 101));
    assert(no_divisor_upto(65537, 102));
    assert(no_divisor_upto(65537, 103));
    assert(no_divisor_upto(65537, 104));
    assert(no_divisor_upto(65537, 105));
    assert(no_divisor_upto(65537, 106));
    assert(no_divisor_upto(65537, 107));
    assert(no_divisor_upto(65537, 108));
    assert(no_divisor_upto(65537, 109));
    assert(no_divisor_upto(65537, 110));
    assert(no_divisor_upto(65537, 111));
    assert(no_divisor_upto(65537, 112));
    assert(no_divisor_upto(65537, 113));
    assert(no_divisor_upto(65537, 114));
    assert(no_divisor_upto(65537, 115));
    assert(no_divisor_upto(65537, 116));
    assert(no_divisor_upto(65537, 117));
    assert(no_divisor_upto(65537, 118));
    assert(no_divisor_upto(65537, 119));
    assert(no_divisor_upto(65537, 120));
    assert(no_divisor_upto(65537, 121));
    assert(no_divisor_upto(65537, 122));
    assert(no_divisor_upto(65537, 123));
    assert(no_divisor_upto(65537, 124));
    assert(no_divisor_upto(65537, 125));
    assert(no_divisor_upto(65537, 126));
    assert(no_divisor_upto(65537, 127));
    assert(no_divisor_upto(65537, 128));
    assert(no_divisor_upto(65537, 129));
    assert(no_divisor_upto(65537, 130));
    assert(no_divisor_upto(65537, 131));
    assert(no_divisor_upto(65537, 132));
    assert(no_divisor_upto(65537, 133));
    assert(no_divisor_upto(65537, 134));
    assert(no_divisor_upto(65537, 135));
    assert(no_divisor_upto(65537, 136));
    assert(no_divisor_upto(65537, 137));
    assert(no_divisor_upto(65537, 138));
    assert(no_divisor_upto(65537, 139));
    assert(no_divisor_upto(65537, 140));
    assert(no_divisor_upto(65537, 141));
    assert(no_divisor_upto(65537, 142));
    assert(no_divisor_upto(65537, 143));
    assert(no_divisor_upto(65537, 144));
    assert(no_divisor_upto(65537, 145));
    assert(no_divisor_upto(65537, 146));
    assert(no_divisor_upto(65537, 147));
    assert(no_divisor_upto(65537, 148));
    assert(no_divisor_upto(65537, 149));
    assert(no_divisor_upto(65537, 150));
    assert(no_divisor_upto(65537, 151));
    assert(no_divisor_upto(65537, 152));
    assert(no_divisor_upto(65537, 153));
    assert(no_divisor_upto(65537, 154));
    assert(no_divisor_upto(65537, 155));
    assert(no_divisor_upto(65537, 156));
    assert(no_divisor_upto(65537, 157));
    assert(no_divisor_upto(65537, 158));
    assert(no_divisor_upto(65537, 159));
    assert(no_divisor_upto(65537, 160));
    assert(no_divisor_upto(65537, 161));
    assert(no_divisor_upto(65537, 162));
    assert(no_divisor_upto(65537, 163));
    assert(no_divisor_upto(65537, 164));
    assert(no_divisor_upto(65537, 165));
    assert(no_divisor_upto(65537, 166));
    assert(no_divisor_upto(65537, 167));
    assert(no_divisor_upto(65537, 168));
    assert(no_divisor_upto(65537, 169));
    assert(no_divisor_upto(65537, 170));
    assert(no_divisor_upto(65537, 171));
    assert(no_divisor_upto(65537, 172));
    assert(no_divisor_upto(65537, 173));
    assert(no_divisor_upto(65537, 174));
    assert(no_divisor_upto(65537, 175));
    assert(no_divisor_upto(65537, 176));
    assert(no_divisor_upto(65537, 177));
    assert(no_divisor_upto(65537, 178));
    assert(no_divisor_upto(65537, 179));
    assert(no_divisor_upto(65537, 180));
    assert(no_divisor_upto(65537, 181));
    assert(no_divisor_upto(65537, 182));
    assert(no_divisor_upto(65537, 183));
    assert(no_divisor_upto(65537, 184));
    assert(no_divisor_upto(65537, 185));
    assert(no_divisor_upto(65537, 186));
    assert(no_divisor_upto(65537, 187));
    assert(no_divisor_upto(65537, 188));
    assert(no_divisor_upto(65537, 189));
    assert(no_divisor_upto(65537, 190));
    assert(no_divisor_upto(65537, 191));
    assert(no_divisor_upto(65537, 192));
    assert(no_divisor_upto(65537, 193));
    assert(no_divisor_upto(65537, 194));
    assert(no_divisor_upto(65537, 195));
    assert(no_divisor_upto(65537, 196));
    assert(no_divisor_upto(65537, 197));
    assert(no_divisor_upto(65537, 198));
    assert(no_divisor_upto(65537, 199));
    assert(no_divisor_upto(65537, 200));
    assert(no_divisor_upto(65537, 201));
    assert(no_divisor_upto(65537, 202));
    assert(no_divisor_upto(65537, 203));
    assert(no_divisor_upto(65537, 204));
    assert(no_divisor_upto(65537, 205));
    assert(no_divisor_upto(65537, 206));
    assert(no_divisor_upto(65537, 207));
    assert(no_divisor_upto(65537, 208));
    assert(no_divisor_upto(65537, 209));
    assert(no_divisor_upto(65537, 210));
    assert(no_divisor_upto(65537, 211));
    assert(no_divisor_upto(65537, 212));
    assert(no_divisor_upto(65537, 213));
    assert(no_divisor_upto(65537, 214));
    assert(no_divisor_upto(65537, 215));
    assert(no_divisor_upto(65537, 216));
    assert(no_divisor_upto(65537, 217));
    assert(no_divisor_upto(65537, 218));
    assert(no_divisor_upto(65537, 219));
    assert(no_divisor_upto(65537, 220));
    assert(no_divisor_upto(65537, 221));
    assert(no_divisor_upto(65537, 222));
    assert(no_divisor_upto(65537, 223));
    assert(no_divisor_upto(65537, 224));
    assert(no_divisor_upto(65537, 225));
    assert(no_divisor_upto(65537, 226));
    assert(no_divisor_upto(65537, 227));
    assert(no_divisor_upto(65537, 228));
    assert(no_divisor_upto(65537, 229));
    assert(no_divisor_upto(65537, 230));
    assert(no_divisor_upto(65537, 231));
    assert(no_divisor_upto(65537, 232));
    assert(no_divisor_upto(65537, 233));
    assert(no_divisor_upto(65537, 234));
    assert(no_divisor_upto(65537, 235));
    assert(no_divisor_upto(65537, 236));
    assert(no_divisor_upto(65537, 237));
    assert(no_divisor_upto(65537, 238));
    assert(no_divisor_upto(65537, 239));
    assert(no_divisor_upto(65537, 240));
    assert(no_divisor_upto(65537, 241));
    assert(no_divisor_upto(65537, 242));
    assert(no_divisor_upto(65537, 243));
    assert(no_divisor_upto(65537, 244));
    assert(no_divisor_upto(65537, 245));
    assert(no_divisor_upto(65537, 246));
    assert(no_divisor_upto(65537, 247));
    assert(no_divisor_upto(65537, 248));
    assert(no_divisor_upto(65537, 249));
    assert(no_divisor_upto(65537, 250));
    assert(no_divisor_upto(65537, 251));
    assert(no_divisor_upto(65537, 252));
    assert(no_divisor_upto(65537, 253));
    assert(no_divisor_upto(65537, 254));
    assert(no_divisor_upto(65537, 255));
    assert(no_divisor_upto(65537, 256));
    assert(no_divisor_upto(65537, 257));
}

/// A positive number below a prime and dividing it can only be one; so a
/// number the prime does not divide is coprime to it.
proof fn lemma_prime_coprime(c: nat, q: nat)
    requires
        is_prime(q as int),
        c > 0,
        (c as int) % (q as int) != 0,
    ensures
        gcd(c, q) == 1,
{
    let g = gcd(c, q) as int;
    lemma_gcd_divides(c, q);
    if g != 1 {
        if g > q {
            lemma_small_mod(q, g as nat);
        }
        if g < q {
            assert(2 <= g < q && (q as int) % g == 0);
        }
        assert(g == q);
        assert((c as int) % (q as int) == 0);
    }
}

/// Splits off a known factor: when `q` divides the cofactor `c` of `g` in
/// `n`, `g` also divides `n / q`.
proof fn lemma_peel(g: int, c: int, q: int, n: int, nq: int)
    requires
        g > 0,
        q > 0,
        n == g * c,
        c % q == 0,
        nq * q == n,
    ensures
        nq % g == 0,
{
    let c1 = c / q;
    lemma_fundamental_div_mod(c, q);
    assert(nq == g * c1) by (nonlinear_arith)
        requires
            q > 0 && c == q * c1 && n == g * c && nq * q == n,
    ;
    lemma_mod_multiples_vanish(c1, 0, g);
    lemma_small_mod(0, g as nat);
}

/// An odd number is coprime to two.
proof fn lemma_gcd_odd_two(c: nat)
    requires
        c % 2 == 1,
    ensures
        gcd(c, 2) == 1,
{
    assert(gcd(1, 0) == 1);
    assert(gcd(2, 1) == 1);
    assert(gcd(c, 2) == gcd(2, c % 2));
}

/// An odd number dividing `2^k * m` divides `m` itself.
proof fn lemma_odd_divides(c: nat, k: nat, m: nat)
    requires
        c > 0,
        c % 2 == 1,
        (pow(2, k) * m) % (c as int) == 0,
    ensures
        (m as int) % (c as int) == 0,
    decreases k,
{
    if k == 0 {
        lemma_pow0(2);
    } else {
        lemma_gcd_odd_two(c);
        vstd::arithmetic::power::lemma_pow_positive(2, (k - 1) as nat);
        lemma_pow1(2);
        lemma_pow_adds(2, 1, (k - 1) as nat);
        let x = (pow(2, (k - 1) as nat) * m) as nat;
        assert(pow(2, k) * m == 2 * x) by (nonlinear_arith)
            requires
                pow(2, k) == 2 * pow(2, (k - 1) as nat) && x == pow(2, (k - 1) as nat) * m,
        ;
        lemma_coprime_divides(c, 2, x);
        lemma_odd_divides(c, (k - 1) as nat, m);
    }
}

/// Every proper divisor of `p - 1` divides one of its six maximal divisors
/// `(p - 1) / q`, one for each prime factor `q` of
/// `p - 1 = 2^32 * 3 * 5 * 17 * 257 * 65537`.
proof fn lemma_proper_divisor(g: nat)
    requires
        g > 0,
        g < 18446744069414584320,
        18446744069414584320int % (g as int) == 0,
    ensures
        9223372034707292160int % (g as int) == 0 || 6148914689804861440int % (g as int) == 0
            || 3689348813882916864int % (g as int) == 0 || 1085102592318504960int % (g as int) == 0
            || 71777214277877760int % (g as int) == 0 || 281470681743360int % (g as int) == 0,
{
    let n = 18446744069414584320int;
    let gi = g as int;
    let c = n / gi;
    lemma_fundamental_div_mod(n, gi);
    vstd::arithmetic::div_mod::lemma_div_pos_is_pos(n, gi);
    assert(c >= 2) by (nonlinear_arith)
        requires
            n == gi * c && 0 < gi < n && c >= 0,
    ;
    if c % 2 == 0 {
        lemma_peel(gi, c, 2, n, 9223372034707292160);
    } else {
        assert(n == c * gi + 0) by (nonlinear_arith)
            requires
                n == gi * c,
        ;
        lemma_fundamental_div_mod_converse(n, c, gi, 0);
        assert(pow(2, 32) == 4294967296) by {
            vstd::arithmetic::power2::lemma2_to64();
            vstd::arithmetic::power::lemma_pow_positive(2, 32);
        }
        let codd = c as nat;
        assert((pow(2, 32) * 4294967295) % (codd as int) == 0);
        lemma_odd_divides(codd, 32, 4294967295);
        lemma_small_primes();
        if c % 3 == 0 {
            lemma_peel(gi, c, 3, n, 6148914689804861440);
        } else {
            lemma_prime_coprime(codd, 3);
            lemma_coprime_divides(codd, 3, 1431655765);
            if c % 5 == 0 {
                lemma_peel(gi, c, 5, n, 3689348813882916864);
            } else {
                lemma_prime_coprime(codd, 5);
                lemma_coprime_divides(codd, 5, 286331153);
                if c % 17 == 0 {
                    lemma_peel(gi, c, 17, n, 1085102592318504960);
                } else {
                    lemma_prime_coprime(codd, 17);
                    lemma_coprime_divides(codd, 17, 16843009);
                    if c % 257 == 0 {
                        lemma_peel(gi, c, 257, n, 71777214277877760);
                    } else {
                        lemma_prime_coprime(codd, 257);
                        lemma_coprime_divides(codd, 257, 65537);
                        if c > 65537 {
                            lemma_small_mod(65537, codd);
                        }
                        assert(c == 65537);
                        lemma_peel(gi, c, 65537, n, 281470681743360);
                    }
                }
            }
        }
    }
}

/// When a period `g` divides `e`, the power at `e` is also one.
proof fn lemma_period_reaches(g: nat, e: nat)
    requires
        g > 0,
        pow(7, g) % (PRIME as int) == 1,
        (e as int) % (g as int) == 0,
    ensures
        pow(7, e) % (PRIME as int) == 1,
{
    let k = (e as int) / (g as int);
    lemma_fundamental_div_mod(e as int, g as int);
    vstd::arithmetic::div_mod::lemma_div_pos_is_pos(e as int, g as int);
    lemma_pow_period_multiple(7, g, k as nat);
    assert(k * g == e) by (nonlinear_arith)
        requires
            e == g * k,
    ;
}

/// No exponent short of `p - 1` sends the generator back to one: its order
/// is exactly `p - 1`.
proof fn lemma_no_small_period(d: nat)
    requires
        0 < d < 18446744069414584320,
    ensures
        pow(7, d) % (PRIME as int) != 1,
{
    let n: nat = 18446744069414584320;
    lemma_generator_certificate();
    if pow(7, d) % (PRIME as int) == 1 {
        lemma_gcd_pow(7, d, n);
        let g = gcd(d, n);
        lemma_gcd_divides(d, n);
        if g > d {
            lemma_small_mod(d, g);
        }
        lemma_proper_divisor(g);
        if 9223372034707292160int % (g as int) == 0 {
            lemma_period_reaches(g, 9223372034707292160);
        } else if 6148914689804861440int % (g as int) == 0 {
            lemma_period_reaches(g, 6148914689804861440);
        } else if 3689348813882916864int % (g as int) == 0 {
            lemma_period_reaches(g, 3689348813882916864);
        } else if 1085102592318504960int % (g as int) == 0 {
            lemma_period_reaches(g, 1085102592318504960);
        } else if 71777214277877760int % (g as int) == 0 {
            lemma_period_reaches(g, 71777214277877760);
        } else {
            lemma_period_reaches(g, 281470681743360);
        }
    }
}

/// The residue of the generator's `i`-th power.
spec fn gen_pow(i: int) -> int {
    pow(7, i as nat) % (PRIME as int)
}

/// Powers of the generator are nonzero residues.
proof fn lemma_gen_in_range(i: int)
    requires
        0 <= i < 18446744069414584320,
    ensures
        1 <= gen_pow(i) < PRIME,
{
    lemma_generator_certificate();
    vstd::arithmetic::power::lemma_pow_positive(7, i as nat);
    vstd::arithmetic::div_mod::lemma_mod_division_less_than_divisor(
        pow(7, i as nat),
        PRIME as int,
    );
    if gen_pow(i) == 0 {
        let j = (18446744069414584320 - i) as nat;
        lemma_pow_adds(7, i as nat, j);
        lemma_mul_mod_noop_left(pow(7, i as nat), pow(7, j), PRIME as int);
        lemma_small_mod(0, PRIME as nat);
    }
}

/// Distinct exponents below the order give distinct powers.
proof fn lemma_gen_injective(i: int, j: int)
    requires
        0 <= i < j < 18446744069414584320,
    ensures
        gen_pow(i) != gen_pow(j),
{
    let n: int = 18446744069414584320;
    lemma_generator_certificate();
    if gen_pow(i) == gen_pow(j) {
        let t = (n - j + i) as nat;
        let u = (n - j) as nat;
        lemma_pow_adds(7, u, i as nat);
        lemma_pow_adds(7, u, j as nat);
        lemma_mul_mod_noop_right(pow(7, u), pow(7, i as nat), PRIME as int);
        lemma_mul_mod_noop_right(pow(7, u), pow(7, j as nat), PRIME as int);
        assert(pow(7, t) % (PRIME as int) == 1);
        lemma_no_small_period(t);
    }
}

/// Every nonzero residue is a power of the generator: the distinct powers
/// fill the whole range.
proof fn lemma_generator_spans(a: int)
    requires
        1 <= a < PRIME,
    ensures
        exists|i: int| 0 <= i < 18446744069414584320 && gen_pow(i) == a,
{
    let n: int = 18446744069414584320;
    let x = set_int_range(0, n);
    let f = |i: int| gen_pow(i);
    lemma_int_range(0, n);
    assert(injective_on(f, x)) by {
        assert forall|i1: int, i2: int|
            x.contains(i1) && x.contains(i2) && #[trigger] f(i1) == #[trigger] f(
                i2,
            ) implies i1 == i2 by {
            if i1 < i2 {
                lemma_gen_injective(i1, i2);
            } else if i2 < i1 {
                lemma_gen_injective(i2, i1);
            }
        }
    }
    let y = x.map(f);
    lemma_map_size(x, y, f);
    let z = set_int_range(1, PRIME as int);
    lemma_int_range(1, PRIME as int);
    assert forall|v: int| y.contains(v) implies z.contains(v) by {
        let i = choose|i: int| x.contains(i) && v == f(i);
        lemma_gen_in_range(i);
    }
    assert forall|v: int| z.contains(v) implies y.contains(v) by {
        if !y.contains(v) {
            assert(y.subset_of(z.remove(v)));
            lemma_len_subset(y, z.remove(v));
            assert(false);
        }
    }
    assert(y.contains(a));
    assert(exists|i: int| x.contains(i) && a == f(i));
    let i = choose|i: int| x.contains(i) && a == f(i);
    assert(0 <= i < n && gen_pow(i) == a);
}

/// Fermat's little theorem over the Goldilocks prime: every nonzero field
/// element raised to `p - 1` gives one.
pub proof fn lemma_fermat_little(a: u64)
    requires
        0 < a < PRIME,
    ensures
        pow(a as int, (PRIME - 1) as nat) % (PRIME as int) == 1,
{
    let n: nat = (PRIME - 1) as nat;
    lemma_generator_certificate();
    lemma_generator_spans(a as int);
    let i = choose|i: int| 0 <= i < 18446744069414584320 && gen_pow(i) == a;
    vstd::arithmetic::power::lemma_pow_positive(7, i as nat);
    lemma_pow_mod_noop(pow(7, i as nat), n, PRIME as int);
    lemma_pow_multiplies(7, i as nat, n);
    lemma_pow_multiplies(7, n, i as nat);
    assert((i as nat) * n == n * (i as nat)) by (nonlinear_arith);
    lemma_pow_mod_noop(pow(7, n), i as nat, PRIME as int);
    lemma1_pow(i as nat);
    lemma_small_mod(1, PRIME as nat);
}

/// A nonzero field element times its Fermat inverse gives one.
pub proof fn lemma_mul_inverse(a: u64)
    requires
        0 < a < PRIME,
    ensures
        crate::base::field_mul(
            a as int,
            pow(a as int, (PRIME - 2) as nat) % (PRIME as int),
        ) == 1,
{
    lemma_fermat_little(a);
    lemma_mul_mod_noop_right(a as int, pow(a as int, (PRIME - 2) as nat), PRIME as int);
    lemma_pow1(a as int);
    lemma_pow_adds(a as int, 1, (PRIME - 2) as nat);
}

} // verus!
