//! Names of domains: public suffixes, and the families under them.

use crate::text;
use crate::text::{chars_of, contains_text, fold};
use vstd::prelude::*;
use vstd::string::*;

verus! {

/// The labels that form a public suffix with the two-letter top level `ab`, with
/// a space around each: under each such suffix, anybody can register a name.
/// This is a selection of the public suffixes in use.
pub open spec fn second_levels(a: char, b: char) -> Seq<char> {
    if a == 'a' && b == 'e' {
        " ac co gov mil net org sch "@
    } else if a == 'a' && b == 'f' {
        " com edu gov net org "@
    } else if a == 'a' && b == 'i' {
        " com net off org "@
    } else if a == 'a' && b == 'l' {
        " com edu gov mil net org "@
    } else if a == 'a' && b == 'm' {
        " co com net org "@
    } else if a == 'a' && b == 'r' {
        " com edu gob gov int mil net org tur "@
    } else if a == 'a' && b == 't' {
        " ac co gv or "@
    } else if a == 'a' && b == 'u' {
        " asn com edu gov id net org "@
    } else if a == 'a' && b == 'z' {
        " biz com edu gov info int mil name net org pp pro "@
    } else if a == 'b' && b == 'a' {
        " com edu gov mil net org "@
    } else if a == 'b' && b == 'h' {
        " com edu gov net org "@
    } else if a == 'b' && b == 'n' {
        " com edu gov net org "@
    } else if a == 'b' && b == 'o' {
        " com edu gob int mil net org tv web "@
    } else if a == 'b' && b == 'r' {
        " adm adv agr app art bio blog com eco edu emp eng esp etc flog fm g12 gov ind inf jor jus leg med mil mus net nom org pro psi rec srv tmp tur tv vet wiki "@
    } else if a == 'b' && b == 's' {
        " com edu gov net org "@
    } else if a == 'b' && b == 'w' {
        " co org "@
    } else if a == 'b' && b == 'y' {
        " com gov mil of "@
    } else if a == 'b' && b == 'z' {
        " com edu gov net org "@
    } else if a == 'c' && b == 'i' {
        " ac asso co com ed edu go gouv int net or org "@
    } else if a == 'c' && b == 'n' {
        " ac com edu gov mil net org "@
    } else if a == 'c' && b == 'o' {
        " com edu gov mil net nom org "@
    } else if a == 'c' && b == 'r' {
        " ac co ed fi go or sa "@
    } else if a == 'c' && b == 'u' {
        " com edu gov inf net org "@
    } else if a == 'c' && b == 'y' {
        " ac biz com gov ltd net org press pro tm "@
    } else if a == 'd' && b == 'o' {
        " art com edu gob gov mil net org sld web "@
    } else if a == 'd' && b == 'z' {
        " art asso com edu gov net org pol soc tm "@
    } else if a == 'e' && b == 'c' {
        " com edu fin gob gov info med mil net org pro "@
    } else if a == 'e' && b == 'e' {
        " aip com edu fie gov lib med org pri riik "@
    } else if a == 'e' && b == 'g' {
        " com edu eng gov mil name net org sci "@
    } else if a == 'e' && b == 's' {
        " com edu gob nom org "@
    } else if a == 'e' && b == 't' {
        " biz com edu gov info name net org "@
    } else if a == 'f' && b == 'j' {
        " ac biz com gov info mil name net org pro "@
    } else if a == 'f' && b == 'r' {
        " asso com gouv nom prd tm "@
    } else if a == 'g' && b == 'e' {
        " com edu gov mil net org pvt school "@
    } else if a == 'g' && b == 'g' {
        " co net org "@
    } else if a == 'g' && b == 'h' {
        " com edu gov mil org "@
    } else if a == 'g' && b == 'i' {
        " com edu gov ltd mod org "@
    } else if a == 'g' && b == 'r' {
        " com edu gov net org "@
    } else if a == 'g' && b == 't' {
        " com edu gob ind mil net org "@
    } else if a == 'h' && b == 'k' {
        " com edu gov idv net org "@
    } else if a == 'h' && b == 'n' {
        " com edu gob mil net org "@
    } else if a == 'h' && b == 't' {
        " art asso com coop edu firm gouv info med net org perso pol pro rel shop "@
    } else if a == 'h' && b == 'u' {
        " co info org priv sport tm "@
    } else if a == 'i' && b == 'd' {
        " ac biz co desa go mil my net or ponpes sch web "@
    } else if a == 'i' && b == 'l' {
        " ac co gov idf k12 muni net org "@
    } else if a == 'i' && b == 'm' {
        " ac co com net org tt tv "@
    } else if a == 'i' && b == 'n' {
        " ac co edu firm gen gov ind mil net nic org res "@
    } else if a == 'i' && b == 'o' {
        " com github gitlab readthedocs "@
    } else if a == 'i' && b == 'q' {
        " com edu gov mil net org "@
    } else if a == 'i' && b == 'r' {
        " ac co gov id net org sch "@
    } else if a == 'i' && b == 't' {
        " edu gov "@
    } else if a == 'j' && b == 'e' {
        " co net org "@
    } else if a == 'j' && b == 'o' {
        " com edu gov mil name net org sch "@
    } else if a == 'j' && b == 'p' {
        " ac ad co ed go gr lg ne or "@
    } else if a == 'k' && b == 'e' {
        " ac co go info me mobi ne or sc "@
    } else if a == 'k' && b == 'g' {
        " com edu gov mil net org "@
    } else if a == 'k' && b == 'i' {
        " biz com edu gov info net org "@
    } else if a == 'k' && b == 'r' {
        " ac co es go hs kg mil ms ne or pe re sc "@
    } else if a == 'k' && b == 'w' {
        " com edu emb gov ind net org "@
    } else if a == 'k' && b == 'z' {
        " com edu gov mil net org "@
    } else if a == 'l' && b == 'a' {
        " com edu gov info int net org per "@
    } else if a == 'l' && b == 'b' {
        " com edu gov net org "@
    } else if a == 'l' && b == 'c' {
        " co com edu gov net org "@
    } else if a == 'l' && b == 'k' {
        " ac assn com edu gov grp hotel int ltd net ngo org sch soc web "@
    } else if a == 'l' && b == 's' {
        " ac biz co edu gov info net org sc "@
    } else if a == 'l' && b == 't' {
        " gov "@
    } else if a == 'l' && b == 'v' {
        " asn com conf edu gov id mil net org "@
    } else if a == 'l' && b == 'y' {
        " com edu gov id med net org plc sch "@
    } else if a == 'm' && b == 'a' {
        " ac co gov net org press "@
    } else if a == 'm' && b == 'e' {
        " ac co edu gov its net org priv "@
    } else if a == 'm' && b == 'g' {
        " co com edu gov mil nom org prd "@
    } else if a == 'm' && b == 'k' {
        " com edu gov inf name net org "@
    } else if a == 'm' && b == 'n' {
        " edu gov org "@
    } else if a == 'm' && b == 'o' {
        " com edu gov net org "@
    } else if a == 'm' && b == 't' {
        " com edu net org "@
    } else if a == 'm' && b == 'u' {
        " ac co com gov net or org "@
    } else if a == 'm' && b == 'v' {
        " aero biz com coop edu gov info int mil museum name net org pro "@
    } else if a == 'm' && b == 'w' {
        " ac biz co com coop edu gov int net org "@
    } else if a == 'm' && b == 'x' {
        " com edu gob net org "@
    } else if a == 'm' && b == 'y' {
        " biz com edu gov mil name net org "@
    } else if a == 'n' && b == 'a' {
        " co com "@
    } else if a == 'n' && b == 'g' {
        " com edu gov mil mobi name net org sch "@
    } else if a == 'n' && b == 'i' {
        " ac biz co com edu gob in info int mil net nom org web "@
    } else if a == 'n' && b == 'z' {
        " ac co cri geek gen govt health iwi kiwi maori mil net org parliament school "@
    } else if a == 'o' && b == 'm' {
        " co com edu gov med museum net org pro "@
    } else if a == 'p' && b == 'a' {
        " abo ac com edu gob ing med net nom org sld "@
    } else if a == 'p' && b == 'e' {
        " com edu gob mil net nom org "@
    } else if a == 'p' && b == 'h' {
        " com edu gov mil net ngo org "@
    } else if a == 'p' && b == 'k' {
        " com edu fam gob gok gop gos gov net org web "@
    } else if a == 'p' && b == 'l' {
        " biz com edu gov info mil net org waw "@
    } else if a == 'p' && b == 's' {
        " com edu gov net org plo sec "@
    } else if a == 'p' && b == 't' {
        " com edu gov int net nome org publ "@
    } else if a == 'p' && b == 'y' {
        " com coop edu gov mil net org "@
    } else if a == 'q' && b == 'a' {
        " com edu gov mil name net org sch "@
    } else if a == 'r' && b == 'o' {
        " arts com firm info nom nt org rec store tm www "@
    } else if a == 'r' && b == 's' {
        " ac co edu gov in org "@
    } else if a == 'r' && b == 'u' {
        " com msk net nov org pp spb "@
    } else if a == 'r' && b == 'w' {
        " ac co coop gov mil net org "@
    } else if a == 's' && b == 'a' {
        " com edu gov med net org pub sch "@
    } else if a == 's' && b == 'b' {
        " com edu gov net org "@
    } else if a == 's' && b == 'd' {
        " com edu gov info med net org tv "@
    } else if a == 's' && b == 'g' {
        " com edu gov net org per "@
    } else if a == 's' && b == 'n' {
        " art com edu gouv org perso univ "@
    } else if a == 's' && b == 'o' {
        " com edu gov me net org "@
    } else if a == 's' && b == 'u' {
        " msk nov spb "@
    } else if a == 's' && b == 'v' {
        " com edu gob org red "@
    } else if a == 's' && b == 'y' {
        " com edu gov mil net org "@
    } else if a == 's' && b == 'z' {
        " ac co org "@
    } else if a == 't' && b == 'h' {
        " ac co go in mi net or "@
    } else if a == 't' && b == 'j' {
        " ac biz co com edu go gov int mil name net nic org test web "@
    } else if a == 't' && b == 'm' {
        " co com edu gov mil net nom org "@
    } else if a == 't' && b == 'n' {
        " com ens fin gov ind info intl mincom nat net org perso tourism "@
    } else if a == 't' && b == 'o' {
        " com edu gov mil net org "@
    } else if a == 't' && b == 'r' {
        " av bbs bel biz com dr edu gen gov info k12 kep mil name net org pol tel tsk tv web "@
    } else if a == 't' && b == 't' {
        " biz co com edu gov info mil name net org pro "@
    } else if a == 't' && b == 'w' {
        " club com ebiz edu game gov idv mil net org "@
    } else if a == 't' && b == 'z' {
        " ac co go hotel info me mil mobi ne or sc tv "@
    } else if a == 'u' && b == 'a' {
        " cherkassy chernigov com crimea dnepropetrovsk donetsk edu gov in kharkiv kharkov kherson kiev kyiv lviv net od odesa odessa org poltava rv sumy te vn zp zt "@
    } else if a == 'u' && b == 'g' {
        " ac co com go ne or org sc "@
    } else if a == 'u' && b == 'k' {
        " ac co gov ltd me mod net nhs org plc police sch "@
    } else if a == 'u' && b == 'y' {
        " com edu gub mil net org "@
    } else if a == 'u' && b == 'z' {
        " co com net org "@
    } else if a == 'v' && b == 'c' {
        " com edu gov mil net org "@
    } else if a == 'v' && b == 'e' {
        " co com edu gob gov info mil net org web "@
    } else if a == 'v' && b == 'n' {
        " ac biz com edu gov health info int name net org pro "@
    } else if a == 'v' && b == 'u' {
        " com edu net org "@
    } else if a == 'w' && b == 's' {
        " com edu gov net org "@
    } else if a == 'y' && b == 'e' {
        " com edu gov mil net org "@
    } else if a == 'z' && b == 'a' {
        " ac agric alt co edu gov grondar law mil net ngo nic nis nom org school tm web "@
    } else if a == 'z' && b == 'm' {
        " ac biz co com edu gov info mil net org sch "@
    } else if a == 'z' && b == 'w' {
        " ac co gov mil org "@
    } else {
        ""@
    }
}

/// The labels that form a public suffix with the two-letter top level `ab`.
fn second_levels_of(a: char, b: char) -> (labels: &'static str)
    ensures
        labels@ == second_levels(a, b),
{
    if a == 'a' && b == 'e' {
        " ac co gov mil net org sch "
    } else if a == 'a' && b == 'f' {
        " com edu gov net org "
    } else if a == 'a' && b == 'i' {
        " com net off org "
    } else if a == 'a' && b == 'l' {
        " com edu gov mil net org "
    } else if a == 'a' && b == 'm' {
        " co com net org "
    } else if a == 'a' && b == 'r' {
        " com edu gob gov int mil net org tur "
    } else if a == 'a' && b == 't' {
        " ac co gv or "
    } else if a == 'a' && b == 'u' {
        " asn com edu gov id net org "
    } else if a == 'a' && b == 'z' {
        " biz com edu gov info int mil name net org pp pro "
    } else if a == 'b' && b == 'a' {
        " com edu gov mil net org "
    } else if a == 'b' && b == 'h' {
        " com edu gov net org "
    } else if a == 'b' && b == 'n' {
        " com edu gov net org "
    } else if a == 'b' && b == 'o' {
        " com edu gob int mil net org tv web "
    } else if a == 'b' && b == 'r' {
        " adm adv agr app art bio blog com eco edu emp eng esp etc flog fm g12 gov ind inf jor jus leg med mil mus net nom org pro psi rec srv tmp tur tv vet wiki "
    } else if a == 'b' && b == 's' {
        " com edu gov net org "
    } else if a == 'b' && b == 'w' {
        " co org "
    } else if a == 'b' && b == 'y' {
        " com gov mil of "
    } else if a == 'b' && b == 'z' {
        " com edu gov net org "
    } else if a == 'c' && b == 'i' {
        " ac asso co com ed edu go gouv int net or org "
    } else if a == 'c' && b == 'n' {
        " ac com edu gov mil net org "
    } else if a == 'c' && b == 'o' {
        " com edu gov mil net nom org "
    } else if a == 'c' && b == 'r' {
        " ac co ed fi go or sa "
    } else if a == 'c' && b == 'u' {
        " com edu gov inf net org "
    } else if a == 'c' && b == 'y' {
        " ac biz com gov ltd net org press pro tm "
    } else if a == 'd' && b == 'o' {
        " art com edu gob gov mil net org sld web "
    } else if a == 'd' && b == 'z' {
        " art asso com edu gov net org pol soc tm "
    } else if a == 'e' && b == 'c' {
        " com edu fin gob gov info med mil net org pro "
    } else if a == 'e' && b == 'e' {
        " aip com edu fie gov lib med org pri riik "
    } else if a == 'e' && b == 'g' {
        " com edu eng gov mil name net org sci "
    } else if a == 'e' && b == 's' {
        " com edu gob nom org "
    } else if a == 'e' && b == 't' {
        " biz com edu gov info name net org "
    } else if a == 'f' && b == 'j' {
        " ac biz com gov info mil name net org pro "
    } else if a == 'f' && b == 'r' {
        " asso com gouv nom prd tm "
    } else if a == 'g' && b == 'e' {
        " com edu gov mil net org pvt school "
    } else if a == 'g' && b == 'g' {
        " co net org "
    } else if a == 'g' && b == 'h' {
        " com edu gov mil org "
    } else if a == 'g' && b == 'i' {
        " com edu gov ltd mod org "
    } else if a == 'g' && b == 'r' {
        " com edu gov net org "
    } else if a == 'g' && b == 't' {
        " com edu gob ind mil net org "
    } else if a == 'h' && b == 'k' {
        " com edu gov idv net org "
    } else if a == 'h' && b == 'n' {
        " com edu gob mil net org "
    } else if a == 'h' && b == 't' {
        " art asso com coop edu firm gouv info med net org perso pol pro rel shop "
    } else if a == 'h' && b == 'u' {
        " co info org priv sport tm "
    } else if a == 'i' && b == 'd' {
        " ac biz co desa go mil my net or ponpes sch web "
    } else if a == 'i' && b == 'l' {
        " ac co gov idf k12 muni net org "
    } else if a == 'i' && b == 'm' {
        " ac co com net org tt tv "
    } else if a == 'i' && b == 'n' {
        " ac co edu firm gen gov ind mil net nic org res "
    } else if a == 'i' && b == 'o' {
        " com github gitlab readthedocs "
    } else if a == 'i' && b == 'q' {
        " com edu gov mil net org "
    } else if a == 'i' && b == 'r' {
        " ac co gov id net org sch "
    } else if a == 'i' && b == 't' {
        " edu gov "
    } else if a == 'j' && b == 'e' {
        " co net org "
    } else if a == 'j' && b == 'o' {
        " com edu gov mil name net org sch "
    } else if a == 'j' && b == 'p' {
        " ac ad co ed go gr lg ne or "
    } else if a == 'k' && b == 'e' {
        " ac co go info me mobi ne or sc "
    } else if a == 'k' && b == 'g' {
        " com edu gov mil net org "
    } else if a == 'k' && b == 'i' {
        " biz com edu gov info net org "
    } else if a == 'k' && b == 'r' {
        " ac co es go hs kg mil ms ne or pe re sc "
    } else if a == 'k' && b == 'w' {
        " com edu emb gov ind net org "
    } else if a == 'k' && b == 'z' {
        " com edu gov mil net org "
    } else if a == 'l' && b == 'a' {
        " com edu gov info int net org per "
    } else if a == 'l' && b == 'b' {
        " com edu gov net org "
    } else if a == 'l' && b == 'c' {
        " co com edu gov net org "
    } else if a == 'l' && b == 'k' {
        " ac assn com edu gov grp hotel int ltd net ngo org sch soc web "
    } else if a == 'l' && b == 's' {
        " ac biz co edu gov info net org sc "
    } else if a == 'l' && b == 't' {
        " gov "
    } else if a == 'l' && b == 'v' {
        " asn com conf edu gov id mil net org "
    } else if a == 'l' && b == 'y' {
        " com edu gov id med net org plc sch "
    } else if a == 'm' && b == 'a' {
        " ac co gov net org press "
    } else if a == 'm' && b == 'e' {
        " ac co edu gov its net org priv "
    } else if a == 'm' && b == 'g' {
        " co com edu gov mil nom org prd "
    } else if a == 'm' && b == 'k' {
        " com edu gov inf name net org "
    } else if a == 'm' && b == 'n' {
        " edu gov org "
    } else if a == 'm' && b == 'o' {
        " com edu gov net org "
    } else if a == 'm' && b == 't' {
        " com edu net org "
    } else if a == 'm' && b == 'u' {
        " ac co com gov net or org "
    } else if a == 'm' && b == 'v' {
        " aero biz com coop edu gov info int mil museum name net org pro "
    } else if a == 'm' && b == 'w' {
        " ac biz co com coop edu gov int net org "
    } else if a == 'm' && b == 'x' {
        " com edu gob net org "
    } else if a == 'm' && b == 'y' {
        " biz com edu gov mil name net org "
    } else if a == 'n' && b == 'a' {
        " co com "
    } else if a == 'n' && b == 'g' {
        " com edu gov mil mobi name net org sch "
    } else if a == 'n' && b == 'i' {
        " ac biz co com edu gob in info int mil net nom org web "
    } else if a == 'n' && b == 'z' {
        " ac co cri geek gen govt health iwi kiwi maori mil net org parliament school "
    } else if a == 'o' && b == 'm' {
        " co com edu gov med museum net org pro "
    } else if a == 'p' && b == 'a' {
        " abo ac com edu gob ing med net nom org sld "
    } else if a == 'p' && b == 'e' {
        " com edu gob mil net nom org "
    } else if a == 'p' && b == 'h' {
        " com edu gov mil net ngo org "
    } else if a == 'p' && b == 'k' {
        " com edu fam gob gok gop gos gov net org web "
    } else if a == 'p' && b == 'l' {
        " biz com edu gov info mil net org waw "
    } else if a == 'p' && b == 's' {
        " com edu gov net org plo sec "
    } else if a == 'p' && b == 't' {
        " com edu gov int net nome org publ "
    } else if a == 'p' && b == 'y' {
        " com coop edu gov mil net org "
    } else if a == 'q' && b == 'a' {
        " com edu gov mil name net org sch "
    } else if a == 'r' && b == 'o' {
        " arts com firm info nom nt org rec store tm www "
    } else if a == 'r' && b == 's' {
        " ac co edu gov in org "
    } else if a == 'r' && b == 'u' {
        " com msk net nov org pp spb "
    } else if a == 'r' && b == 'w' {
        " ac co coop gov mil net org "
    } else if a == 's' && b == 'a' {
        " com edu gov med net org pub sch "
    } else if a == 's' && b == 'b' {
        " com edu gov net org "
    } else if a == 's' && b == 'd' {
        " com edu gov info med net org tv "
    } else if a == 's' && b == 'g' {
        " com edu gov net org per "
    } else if a == 's' && b == 'n' {
        " art com edu gouv org perso univ "
    } else if a == 's' && b == 'o' {
        " com edu gov me net org "
    } else if a == 's' && b == 'u' {
        " msk nov spb "
    } else if a == 's' && b == 'v' {
        " com edu gob org red "
    } else if a == 's' && b == 'y' {
        " com edu gov mil net org "
    } else if a == 's' && b == 'z' {
        " ac co org "
    } else if a == 't' && b == 'h' {
        " ac co go in mi net or "
    } else if a == 't' && b == 'j' {
        " ac biz co com edu go gov int mil name net nic org test web "
    } else if a == 't' && b == 'm' {
        " co com edu gov mil net nom org "
    } else if a == 't' && b == 'n' {
        " com ens fin gov ind info intl mincom nat net org perso tourism "
    } else if a == 't' && b == 'o' {
        " com edu gov mil net org "
    } else if a == 't' && b == 'r' {
        " av bbs bel biz com dr edu gen gov info k12 kep mil name net org pol tel tsk tv web "
    } else if a == 't' && b == 't' {
        " biz co com edu gov info mil name net org pro "
    } else if a == 't' && b == 'w' {
        " club com ebiz edu game gov idv mil net org "
    } else if a == 't' && b == 'z' {
        " ac co go hotel info me mil mobi ne or sc tv "
    } else if a == 'u' && b == 'a' {
        " cherkassy chernigov com crimea dnepropetrovsk donetsk edu gov in kharkiv kharkov kherson kiev kyiv lviv net od odesa odessa org poltava rv sumy te vn zp zt "
    } else if a == 'u' && b == 'g' {
        " ac co com go ne or org sc "
    } else if a == 'u' && b == 'k' {
        " ac co gov ltd me mod net nhs org plc police sch "
    } else if a == 'u' && b == 'y' {
        " com edu gub mil net org "
    } else if a == 'u' && b == 'z' {
        " co com net org "
    } else if a == 'v' && b == 'c' {
        " com edu gov mil net org "
    } else if a == 'v' && b == 'e' {
        " co com edu gob gov info mil net org web "
    } else if a == 'v' && b == 'n' {
        " ac biz com edu gov health info int name net org pro "
    } else if a == 'v' && b == 'u' {
        " com edu net org "
    } else if a == 'w' && b == 's' {
        " com edu gov net org "
    } else if a == 'y' && b == 'e' {
        " com edu gov mil net org "
    } else if a == 'z' && b == 'a' {
        " ac agric alt co edu gov grondar law mil net ngo nic nis nom org school tm web "
    } else if a == 'z' && b == 'm' {
        " ac biz co com edu gov info mil net org sch "
    } else if a == 'z' && b == 'w' {
        " ac co gov mil org "
    } else {
        ""
    }
}

/// `word` is one of the words in `words`, which have a space around each.
pub open spec fn is_word_of(words: Seq<char>, word: Seq<char>) -> bool {
    !word.contains(' ') && text::occurs_in(words, seq![' '] + word + seq![' '])
}

/// `name` is a label and a two-letter top level, and a public suffix. `name` is
/// in lower case.
pub open spec fn is_second_level(name: Seq<char>) -> bool {
    let n = name.len() as int;
    &&& n >= 3
    &&& name[n - 3] == '.'
    &&& !name.take(n - 3).contains('.')
    &&& is_word_of(second_levels(name[n - 2], name[n - 1]), name.take(n - 3))
}

/// `name` is a public suffix: it has one label, or is one of the known second
/// levels. The case of letters does not count.
pub open spec fn is_public_suffix(name: Seq<char>) -> bool {
    !name.contains('.') || is_second_level(text::folded(name))
}

/// Where the label after the one at `from` starts; behind the end of `s` where
/// there is none.
pub open spec fn next_label(s: Seq<char>, from: int) -> int
    decreases s.len() - from,
{
    if from < 0 || from >= s.len() {
        s.len() as int + 1
    } else if s[from] == '.' {
        from + 1
    } else {
        next_label(s, from + 1)
    }
}

/// Where the longest public suffix starts that starts with a label of `s` at
/// `from` or behind it.
pub open spec fn suffix_start(s: Seq<char>, from: int) -> int
    decreases s.len() + 1 - from,
    when 0 <= from <= s.len()
    via suffix_start_ends
{
    if is_public_suffix(s.skip(from)) {
        from
    } else {
        suffix_start(s, next_label(s, from))
    }
}

#[via_fn]
proof fn suffix_start_ends(s: Seq<char>, from: int) {
    next_label_facts(s, from);
    if !is_public_suffix(s.skip(from)) {
        dot_ahead(s, from);
    }
}

/// The last place before `end` where a dot stands in `s`, or -1.
pub open spec fn last_dot(s: Seq<char>, end: int) -> int
    decreases end,
{
    if end <= 0 {
        -1
    } else if s[end - 1] == '.' {
        end - 1
    } else {
        last_dot(s, end - 1)
    }
}

/// A name without the dot of the root behind it.
pub open spec fn without_root(s: Seq<char>) -> Seq<char> {
    if s.len() > 0 && s.last() == '.' {
        s.drop_last()
    } else {
        s
    }
}

/// The family of a domain: its public suffix and the label in front of it.
/// Nothing where the domain is itself a public suffix. A dot of the root behind
/// the domain does not count.
pub open spec fn family_of(domain: Seq<char>) -> Option<Seq<char>> {
    family_of_name(without_root(domain))
}

/// The family of a name that has no dot of the root behind it.
pub open spec fn family_of_name(s: Seq<char>) -> Option<Seq<char>> {
    let suffix = suffix_start(s, 0);
    if suffix <= 0 {
        None
    } else {
        Some(s.skip(last_dot(s, suffix - 1) + 1))
    }
}

// ---------------------------------------------------------------------------
// Facts
// ---------------------------------------------------------------------------

/// A label of `s` starts at `i`.
pub open spec fn label_at(s: Seq<char>, i: int) -> bool {
    0 <= i <= s.len() && (i == 0 || s[i - 1] == '.')
}

proof fn next_label_facts(s: Seq<char>, from: int)
    requires
        0 <= from <= s.len(),
    ensures
        from < next_label(s, from) <= s.len() + 1,
        next_label(s, from) <= s.len() ==> s[next_label(s, from) - 1] == '.',
        forall|i: int| from <= i < next_label(s, from) - 1 ==> #[trigger] s[i] != '.',
    decreases s.len() - from,
{
    if from < s.len() && s[from] != '.' {
        next_label_facts(s, from + 1);
    }
}

/// A name with a dot in it has a label behind its first one.
proof fn dot_ahead(s: Seq<char>, from: int)
    requires
        0 <= from <= s.len(),
        s.skip(from).contains('.'),
    ensures
        next_label(s, from) <= s.len(),
{
    next_label_facts(s, from);
    let rest = s.skip(from);
    let i = choose|i: int| 0 <= i < rest.len() && rest[i] == '.';
    assert(s[from + i] == '.');
}

proof fn suffix_start_facts(s: Seq<char>, from: int)
    requires
        label_at(s, from),
    ensures
        from <= suffix_start(s, from) <= s.len(),
        label_at(s, suffix_start(s, from)),
        is_public_suffix(s.skip(suffix_start(s, from))),
        forall|i: int|
            from <= i < suffix_start(s, from) && #[trigger] label_at(s, i) ==> !is_public_suffix(
                s.skip(i),
            ),
    decreases s.len() + 1 - from,
{
    if !is_public_suffix(s.skip(from)) {
        dot_ahead(s, from);
        next_label_facts(s, from);
        let next = next_label(s, from);
        suffix_start_facts(s, next);
        assert forall|i: int|
            from <= i < suffix_start(s, from) && #[trigger] label_at(s, i) implies !is_public_suffix(
            s.skip(i),
        ) by {
            if from < i < next {
                assert(s[i - 1] != '.');
            }
        }
    }
}

proof fn last_dot_facts(s: Seq<char>, end: int)
    requires
        end <= s.len(),
    ensures
        -1 <= last_dot(s, end),
        last_dot(s, end) < end || end <= 0,
        last_dot(s, end) >= 0 ==> s[last_dot(s, end)] == '.',
        forall|i: int| last_dot(s, end) < i < end && 0 <= i ==> #[trigger] s[i] != '.',
    decreases end,
{
    if end > 0 && s[end - 1] != '.' {
        last_dot_facts(s, end - 1);
    }
}

/// A family is one label in front of a public suffix, and ends the domain, but
/// for the dot of the root. No longer end of the domain is a public suffix.
pub proof fn family_is_a_label_and_a_suffix(domain: Seq<char>)
    requires
        family_of(domain) is Some,
    ensures
        ({
            let name = without_root(domain);
            let family = family_of(domain)->0;
            let start = name.len() - family.len();
            let suffix = suffix_start(name, 0);
            &&& label_at(name, start)
            &&& text::occurs_at(name, family, start)
            &&& 0 <= start < suffix <= name.len()
            &&& name[suffix - 1] == '.'
            &&& is_public_suffix(name.skip(suffix))
            &&& !name.subrange(start, suffix - 1).contains('.')
            &&& forall|i: int|
                0 <= i < suffix && #[trigger] label_at(name, i) ==> !is_public_suffix(
                    name.skip(i),
                )
        }),
{
    let name = without_root(domain);
    suffix_start_facts(name, 0);
    let suffix = suffix_start(name, 0);
    last_dot_facts(name, suffix - 1);
    let start = last_dot(name, suffix - 1) + 1;
    let family = name.skip(start);
    assert(family_of(domain) == Some(family));
    assert(name.subrange(start, start + family.len()) =~= family);
}

/// The family of a family is the family itself, where the last label of the
/// domain is not empty.
pub proof fn family_is_its_own_family(domain: Seq<char>)
    requires
        family_of(domain) is Some,
        without_root(domain).last() != '.',
    ensures
        family_of(family_of(domain)->0) == family_of(domain),
{
    family_is_a_label_and_a_suffix(domain);
    let name = without_root(domain);
    let family = family_of(domain)->0;
    let start = name.len() - family.len();
    let suffix = suffix_start(name, 0);
    let n = suffix - start;
    assert(family =~= name.skip(start));
    assert(without_root(family) == family);
    assert(name.skip(start).skip(0) =~= family);
    assert(!is_public_suffix(family.skip(0)));
    dot_ahead(family, 0);
    next_label_facts(family, 0);
    let next = next_label(family, 0);
    assert(family[n - 1] == '.');
    assert(next == n) by {
        assert(next <= n);
        if next < n {
            assert(family[next - 1] == '.');
            assert(name.subrange(start, suffix - 1)[next - 1] == '.');
        }
    }
    assert(family.skip(n) =~= name.skip(suffix));
    assert(suffix_start(family, 0) == suffix_start(family, n));
    assert(suffix_start(family, n) == n);
    last_dot_facts(family, n - 1);
    assert(last_dot(family, n - 1) == -1) by {
        if last_dot(family, n - 1) >= 0 {
            let i = last_dot(family, n - 1);
            assert(name.subrange(start, suffix - 1)[i] == '.');
        }
    }
    assert(family.skip(0) =~= family);
}

// ---------------------------------------------------------------------------
// Families
// ---------------------------------------------------------------------------

/// Whether the name from `from` on is a public suffix. `low` is `s` in lower
/// case.
fn suffix_at(s: &Vec<char>, low: &Vec<char>, from: usize) -> (yes: bool)
    requires
        from <= s@.len(),
        low@ == text::folded(s@),
    ensures
        yes == is_public_suffix(s@.skip(from as int)),
{
    let ghost name = s@.skip(from as int);
    let mut i: usize = from;
    while i < s.len() && s[i] != '.'
        invariant
            from <= i <= s@.len(),
            forall|j: int| from <= j < i ==> #[trigger] s@[j] != '.',
        decreases s@.len() - i,
    {
        i += 1;
    }
    if i == s.len() {
        return true;
    }
    assert(name[i - from] == '.');
    assert(low@.skip(from as int) =~= text::folded(name));
    second_level_at(low, from)
}

/// Whether the name from `from` on is a label and a two-letter top level, and a
/// public suffix.
fn second_level_at(low: &Vec<char>, from: usize) -> (yes: bool)
    requires
        from <= low@.len(),
    ensures
        yes == is_second_level(low@.skip(from as int)),
{
    let ghost name = low@.skip(from as int);
    let len: usize = low.len();
    if len - from < 3 || low[len - 3] != '.' {
        return false;
    }
    let mut word: Vec<char> = Vec::new();
    word.push(' ');
    let mut i: usize = from;
    while i < len - 3
        invariant
            from <= i <= len - 3,
            len == low@.len(),
            name == low@.skip(from as int),
            word@ == seq![' '] + low@.subrange(from as int, i as int),
            forall|j: int| from <= j < i ==> #[trigger] low@[j] != '.' && low@[j] != ' ',
        decreases len - i,
    {
        if low[i] == '.' || low[i] == ' ' {
            assert(name.take(name.len() - 3)[i - from] == low@[i as int]);
            return false;
        }
        word.push(low[i]);
        i += 1;
        assert(word@ =~= seq![' '] + low@.subrange(from as int, i as int));
    }
    word.push(' ');
    let words = chars_of(second_levels_of(low[len - 2], low[len - 1]));
    assert(name.take(name.len() - 3) =~= low@.subrange(from as int, len - 3));
    assert(word@ =~= seq![' '] + name.take(name.len() - 3) + seq![' ']);
    contains_text(&words, &word)
}

/// Takes the dot of the root from behind a name.
pub(crate) fn drop_root(s: &mut Vec<char>)
    ensures
        final(s)@ == without_root(old(s)@),
{
    let len: usize = s.len();
    if len > 0 && s[len - 1] == '.' {
        s.truncate(len - 1);
        assert(s@ =~= old(s)@.drop_last());
    }
}

/// Where the family of a name starts in it; nothing where the name is itself a
/// public suffix. The name has no dot of the root behind it.
pub(crate) fn family_start(s: &Vec<char>) -> (start: Option<usize>)
    ensures
        match family_of_name(s@) {
            Some(family) => start is Some && start->0 <= s@.len() && family == s@.skip(
                start->0 as int,
            ),
            None => start is None,
        },
{
    let low = fold(s);
    let mut label: usize = 0;
    let mut suffix: usize = 0;
    proof {
        suffix_start_facts(s@, 0);
        assert(last_dot(s@, -1) == -1);
    }
    while !suffix_at(s, &low, suffix)
        invariant
            low@ == text::folded(s@),
            label_at(s@, suffix as int),
            suffix_start(s@, 0) == suffix_start(s@, suffix as int),
            label == last_dot(s@, suffix - 1) + 1,
            label <= suffix,
            suffix > 0 ==> label < suffix,
        decreases s@.len() + 1 - suffix,
    {
        proof {
            dot_ahead(s@, suffix as int);
            next_label_facts(s@, suffix as int);
        }
        let mut i: usize = suffix;
        while s[i] != '.'
            invariant
                suffix <= i < s.len(),
                next_label(s@, suffix as int) == next_label(s@, i as int),
                next_label(s@, i as int) <= s@.len(),
                last_dot(s@, i as int) == last_dot(s@, suffix as int),
            decreases s@.len() - i,
        {
            i += 1;
            proof {
                if i >= s@.len() {
                    assert(next_label(s@, i as int) == s@.len() + 1);
                }
            }
        }
        label = suffix;
        suffix = i + 1;
    }
    if suffix == 0 {
        None
    } else {
        Some(label)
    }
}

/// The family of a domain: its public suffix and the label in front of it.
///
/// The public suffixes are those of [`second_levels`], which is a selection.
/// Below a suffix that is not among them, the last label counts as the suffix,
/// and the family is the last two labels.
pub fn extract_etld1(domain: &str) -> (family: Option<String>)
    ensures
        match family_of(domain@) {
            Some(name) => family is Some && family->0@ == name,
            None => family is None,
        },
{
    let mut chars = chars_of(domain);
    drop_root(&mut chars);
    match family_start(&chars) {
        Some(start) => {
            let part = domain.substring_char(start, chars.len());
            assert(part@ =~= chars@.skip(start as int));
            Some(part.to_string())
        },
        None => None,
    }
}

// ---------------------------------------------------------------------------
// Laws on the text of a name
// ---------------------------------------------------------------------------

/// The suffix starts at the first label from which on the name is public.
proof fn suffix_start_is(s: Seq<char>, at: int)
    requires
        label_at(s, at),
        is_public_suffix(s.skip(at)),
        forall|i: int| 0 <= i < at && #[trigger] label_at(s, i) ==> !is_public_suffix(s.skip(i)),
    ensures
        suffix_start(s, 0) == at,
{
    suffix_start_facts(s, 0);
    let found = suffix_start(s, 0);
    if at < found {
        assert(label_at(s, at));
    }
    if found < at {
        assert(label_at(s, found));
    }
}

proof fn last_dot_is(s: Seq<char>, end: int, at: int)
    requires
        -1 <= at < end <= s.len(),
        at >= 0 ==> s[at] == '.',
        forall|i: int| at < i < end ==> #[trigger] s[i] != '.',
    ensures
        last_dot(s, end) == at,
    decreases end,
{
    if at < end - 1 {
        assert(s[end - 1] != '.');
        last_dot_is(s, end - 1, at);
    }
}

/// A name with two dots, the last character being none, is no second level.
proof fn two_dots_are_too_many(name: Seq<char>, i: int, j: int)
    requires
        0 <= i < j < name.len(),
        name[i] == '.',
        name[j] == '.',
        name.last() != '.',
    ensures
        !is_public_suffix(name),
{
    let low = text::folded(name);
    let n: int = low.len() as int;
    assert(low[i] == '.' && low[j] == '.');
    assert(name.contains('.'));
    if is_second_level(low) {
        if j == n - 2 {
            reveal_strlit("");
            assert(second_levels('.', low[n - 1]) == ""@);
            let word = seq![' '] + low.take(n - 3) + seq![' '];
            assert(!text::occurs_in(""@, word));
            assert(false);
        }
        assert(low.take(n - 3)[i] == '.');
    }
}

/// A subdomain is in the family of its domain: whatever stands in front of a
/// domain that has a family, and a dot behind it, changes nothing.
pub proof fn subdomains_share_the_family(front: Seq<char>, domain: Seq<char>)
    requires
        family_of(domain) is Some,
        domain.last() != '.',
    ensures
        family_of(front + seq!['.'] + domain) == family_of(domain),
{
    let name = front + seq!['.'] + domain;
    let k: int = front.len() as int + 1;
    suffix_start_facts(domain, 0);
    let suffix = suffix_start(domain, 0);
    assert(domain[suffix - 1] == '.');
    assert(without_root(domain) == domain);
    assert(name.last() == domain.last());
    assert(without_root(name) == name);
    assert(name.skip(k + suffix) =~= domain.skip(suffix));
    assert(name[k + suffix - 1] == domain[suffix - 1]);
    assert(label_at(name, k + suffix));
    assert forall|i: int| 0 <= i < k + suffix && #[trigger] label_at(name, i) implies !is_public_suffix(
        name.skip(i),
    ) by {
        let rest = name.skip(i);
        if i < k {
            assert(rest[k - 1 - i] == '.');
            assert(rest[k + suffix - 1 - i] == '.');
            assert(rest.last() == domain.last());
            two_dots_are_too_many(rest, k - 1 - i, k + suffix - 1 - i);
        } else {
            assert(rest =~= domain.skip(i - k));
            if i > k {
                assert(name[i - 1] == domain[i - k - 1]);
            }
            assert(label_at(domain, i - k));
        }
    }
    suffix_start_is(name, k + suffix);
    last_dot_facts(domain, suffix - 1);
    let dot = last_dot(domain, suffix - 1);
    assert forall|i: int| k + dot < i < k + suffix - 1 implies #[trigger] name[i] != '.' by {
        assert(name[i] == domain[i - k]);
    }
    if dot >= 0 {
        assert(name[k + dot] == domain[dot]);
    }
    last_dot_is(name, k + suffix - 1, k + dot);
    assert(name.skip(k + dot + 1) =~= domain.skip(dot + 1));
}

/// A name of one label has no family.
pub proof fn single_labels_have_no_family(label: Seq<char>)
    requires
        !label.contains('.'),
    ensures
        family_of(label) is None,
        label.len() > 0 ==> family_of(label.push('.')) is None,
{
    if label.len() > 0 {
        assert(label.contains(label.last()));
    }
    assert(without_root(label) == label);
    assert(label.push('.').drop_last() =~= label);
    assert(label.skip(0) =~= label);
    suffix_start_is(label, 0);
}

/// Two labels are a family of their own, unless they are a public suffix, which
/// needs a second label of two letters: then they have none.
pub proof fn two_labels_are_a_family(label: Seq<char>, top: Seq<char>)
    requires
        !label.contains('.'),
        !top.contains('.'),
        top.len() > 0,
    ensures
        ({
            let name = label + seq!['.'] + top;
            let known = top.len() == 2 && is_word_of(
                second_levels(text::lower_ascii(top[0]), text::lower_ascii(top[1])),
                text::folded(label),
            );
            &&& !known ==> family_of(name) == Some(name)
            &&& known ==> family_of(name) is None
        }),
{
    let name = label + seq!['.'] + top;
    let k: int = label.len() as int;
    assert(top.contains(top.last()));
    assert(name.last() == top.last());
    assert(without_root(name) == name);
    two_labels_facts(label, top);
    assert(name.skip(0) =~= name);
    if is_public_suffix(name) {
        suffix_start_is(name, 0);
    } else {
        assert(name.skip(k + 1) =~= top);
        assert forall|i: int| 0 <= i < k + 1 && #[trigger] label_at(name, i) implies !is_public_suffix(
            name.skip(i),
        ) by {
            if i > 0 {
                assert(name[i - 1] == label[i - 1]);
                assert(label.contains(label[i - 1]));
            }
        }
        suffix_start_is(name, k + 1);
        assert forall|i: int| -1 < i < k implies #[trigger] name[i] != '.' by {
            assert(name[i] == label[i]);
            assert(label.contains(label[i]));
        }
        if k > 0 {
            last_dot_is(name, k, -1);
        }
    }
}

proof fn two_labels_facts(label: Seq<char>, top: Seq<char>)
    requires
        !label.contains('.'),
        !top.contains('.'),
    ensures
        is_public_suffix(label + seq!['.'] + top) <==> top.len() == 2 && is_word_of(
            second_levels(text::lower_ascii(top[0]), text::lower_ascii(top[1])),
            text::folded(label),
        ),
{
    let name = label + seq!['.'] + top;
    let low = text::folded(name);
    let k: int = label.len() as int;
    let n: int = name.len() as int;
    assert(name[k] == '.');
    assert(name.contains('.'));
    assert forall|i: int| 0 <= i < n && i != k implies #[trigger] low[i] != '.' by {
        if i < k {
            assert(name[i] == label[i]);
            assert(label.contains(label[i]));
        } else {
            assert(name[i] == top[i - k - 1]);
            assert(top.contains(top[i - k - 1]));
        }
    }
    if n >= 3 && low[n - 3] == '.' {
        assert(k == n - 3);
    }
    if top.len() == 2 {
        assert(low.take(k) =~= text::folded(label));
        assert(low[n - 2] == text::lower_ascii(top[0]));
        assert(low[n - 1] == text::lower_ascii(top[1]));
        assert(low[k] == '.');
        assert(!low.take(k).contains('.'));
    }
}

/// Below a public suffix of two labels, the family has three: a label in front
/// of a known second level and a two-letter top level.
pub proof fn second_levels_carry_families(
    label: Seq<char>,
    word: Seq<char>,
    a: char,
    b: char,
)
    requires
        !label.contains('.'),
        !word.contains('.'),
        a != '.',
        b != '.',
        is_word_of(second_levels(text::lower_ascii(a), text::lower_ascii(b)), text::folded(word)),
    ensures
        ({
            let name = label + seq!['.'] + (word + seq!['.'] + seq![a, b]);
            family_of(name) == Some(name)
        }),
{
    let top = seq![a, b];
    let suffix = word + seq!['.'] + top;
    let name = label + seq!['.'] + suffix;
    let k: int = label.len() as int;
    assert(!top.contains('.'));
    two_labels_facts(word, top);
    assert(name.last() == b);
    assert(without_root(name) == name);
    assert(name.skip(k + 1) =~= suffix);
    assert(name[k] == '.');
    assert(name[k + 1 + word.len()] == '.');
    assert forall|i: int| 0 <= i < k + 1 && #[trigger] label_at(name, i) implies !is_public_suffix(
        name.skip(i),
    ) by {
        let rest = name.skip(i);
        assert(rest[k - i] == '.');
        assert(rest[k + 1 + word.len() - i] == '.');
        assert(rest.last() == b);
        two_dots_are_too_many(rest, k - i, k + 1 + word.len() - i);
    }
    suffix_start_is(name, k + 1);
    assert forall|i: int| -1 < i < k implies #[trigger] name[i] != '.' by {
        assert(name[i] == label[i]);
        assert(label.contains(label[i]));
    }
    if k > 0 {
        last_dot_is(name, k, -1);
    }
    assert(name.skip(0) =~= name);
}

/// The case of letters does not move the family: the family of a name in lower
/// case is the family of the name in lower case.
pub proof fn letter_case_keeps_the_family(domain: Seq<char>)
    ensures
        family_of(text::folded(domain)) == match family_of(domain) {
            Some(family) => Some(text::folded(family)),
            None => None,
        },
{
    let name = without_root(domain);
    let low = text::folded(name);
    assert(without_root(text::folded(domain)) =~= low) by {
        if domain.len() > 0 {
            assert(text::folded(domain).last() == text::lower_ascii(domain.last()));
        }
    }
    suffix_start_facts(name, 0);
    let suffix = suffix_start(name, 0);
    assert forall|i: int| 0 <= i <= name.len() implies is_public_suffix(#[trigger] low.skip(i))
        == is_public_suffix(name.skip(i)) by {
        let part = name.skip(i);
        assert(low.skip(i) =~= text::folded(part));
        assert(text::folded(text::folded(part)) =~= text::folded(part));
        if part.contains('.') {
            let j = choose|j: int| 0 <= j < part.len() && part[j] == '.';
            assert(text::folded(part)[j] == '.');
        }
        if text::folded(part).contains('.') {
            let j = choose|j: int| 0 <= j < part.len() && text::folded(part)[j] == '.';
            assert(part[j] == '.');
        }
    }
    assert(label_at(low, suffix));
    assert(is_public_suffix(low.skip(suffix)));
    assert forall|i: int| 0 <= i < suffix && #[trigger] label_at(low, i) implies !is_public_suffix(
        low.skip(i),
    ) by {
        assert(label_at(name, i));
    }
    suffix_start_is(low, suffix);
    if suffix > 0 {
        last_dot_facts(name, suffix - 1);
        let dot = last_dot(name, suffix - 1);
        if suffix > 1 {
            assert forall|i: int| dot < i < suffix - 1 implies #[trigger] low[i] != '.' by {
                assert(name[i] != '.');
            }
            last_dot_is(low, suffix - 1, dot);
        }
        assert(low.skip(dot + 1) =~= text::folded(name.skip(dot + 1)));
    }
}

/// The dot of the root behind a name does not change its family.
pub proof fn root_dots_keep_the_family(domain: Seq<char>)
    requires
        domain.len() > 0,
        domain.last() != '.',
    ensures
        family_of(domain.push('.')) == family_of(domain),
{
    assert(domain.push('.').drop_last() =~= domain);
}

proof fn word_stands_in(words: Seq<char>, word: Seq<char>, at: int)
    requires
        0 <= at,
        at + word.len() + 2 <= words.len(),
        words[at] == ' ',
        words[at + 1 + word.len()] == ' ',
        forall|i: int| 0 <= i < word.len() ==> words[at + 1 + i] == #[trigger] word[i],
        forall|i: int| 0 <= i < word.len() ==> #[trigger] word[i] != ' ',
    ensures
        is_word_of(words, word),
{
    let pat = seq![' '] + word + seq![' '];
    assert(words.subrange(at, at + pat.len()) =~= pat);
    assert(text::occurs_at(words, pat, at));
}

#[verifier::rlimit(60)]
proof fn british_names(label: Seq<char>)
    requires
        !label.contains('.'),
    ensures
        family_of(label + ".co.uk"@) == Some(label + ".co.uk"@),
        family_of(label + ".org.uk"@) == Some(label + ".org.uk"@),
        family_of(label + ".ac.uk"@) == Some(label + ".ac.uk"@),
        family_of(label + ".gov.uk"@) == Some(label + ".gov.uk"@),
{
    reveal_strlit(" ac co gov ltd me mod net nhs org plc police sch ");
    let words = second_levels('u', 'k');
    assert(family_of(label + ".co.uk"@) == Some(label + ".co.uk"@)) by {
        reveal_strlit(".co.uk");
        let co = seq!['c', 'o'];
        assert(text::folded(co) =~= co);
        word_stands_in(words, co, 3);
        second_levels_carry_families(label, co, 'u', 'k');
        assert(label + ".co.uk"@ =~= label + seq!['.'] + (co + seq!['.'] + seq!['u', 'k']));
    }
    assert(family_of(label + ".org.uk"@) == Some(label + ".org.uk"@)) by {
        reveal_strlit(".org.uk");
        let org = seq!['o', 'r', 'g'];
        assert(text::folded(org) =~= org);
        word_stands_in(words, org, 29);
        second_levels_carry_families(label, org, 'u', 'k');
        assert(label + ".org.uk"@ =~= label + seq!['.'] + (org + seq!['.'] + seq!['u', 'k']));
    }
    assert(family_of(label + ".ac.uk"@) == Some(label + ".ac.uk"@)) by {
        reveal_strlit(".ac.uk");
        let ac = seq!['a', 'c'];
        assert(text::folded(ac) =~= ac);
        word_stands_in(words, ac, 0);
        second_levels_carry_families(label, ac, 'u', 'k');
        assert(label + ".ac.uk"@ =~= label + seq!['.'] + (ac + seq!['.'] + seq!['u', 'k']));
    }
    assert(family_of(label + ".gov.uk"@) == Some(label + ".gov.uk"@)) by {
        reveal_strlit(".gov.uk");
        let gov = seq!['g', 'o', 'v'];
        assert(text::folded(gov) =~= gov);
        word_stands_in(words, gov, 6);
        second_levels_carry_families(label, gov, 'u', 'k');
        assert(label + ".gov.uk"@ =~= label + seq!['.'] + (gov + seq!['.'] + seq!['u', 'k']));
    }
}

#[verifier::rlimit(60)]
proof fn australian_names(label: Seq<char>)
    requires
        !label.contains('.'),
    ensures
        family_of(label + ".com.au"@) == Some(label + ".com.au"@),
{
    reveal_strlit(" asn com edu gov id net org ");
    let words = second_levels('a', 'u');
    assert(family_of(label + ".com.au"@) == Some(label + ".com.au"@)) by {
        reveal_strlit(".com.au");
        let com = seq!['c', 'o', 'm'];
        assert(text::folded(com) =~= com);
        word_stands_in(words, com, 4);
        second_levels_carry_families(label, com, 'a', 'u');
        assert(label + ".com.au"@ =~= label + seq!['.'] + (com + seq!['.'] + seq!['a', 'u']));
    }
}

#[verifier::rlimit(60)]
proof fn brazilian_names(label: Seq<char>)
    requires
        !label.contains('.'),
    ensures
        family_of(label + ".com.br"@) == Some(label + ".com.br"@),
{
    reveal_strlit(" adm adv agr app art bio blog com eco edu emp eng esp etc flog fm g12 gov ind inf jor jus leg med mil mus net nom org pro psi rec srv tmp tur tv vet wiki ");
    let words = second_levels('b', 'r');
    assert(family_of(label + ".com.br"@) == Some(label + ".com.br"@)) by {
        reveal_strlit(".com.br");
        let com = seq!['c', 'o', 'm'];
        assert(text::folded(com) =~= com);
        word_stands_in(words, com, 29);
        second_levels_carry_families(label, com, 'b', 'r');
        assert(label + ".com.br"@ =~= label + seq!['.'] + (com + seq!['.'] + seq!['b', 'r']));
    }
}

#[verifier::rlimit(60)]
proof fn japanese_names(label: Seq<char>)
    requires
        !label.contains('.'),
    ensures
        family_of(label + ".co.jp"@) == Some(label + ".co.jp"@),
{
    reveal_strlit(" ac ad co ed go gr lg ne or ");
    let words = second_levels('j', 'p');
    assert(family_of(label + ".co.jp"@) == Some(label + ".co.jp"@)) by {
        reveal_strlit(".co.jp");
        let co = seq!['c', 'o'];
        assert(text::folded(co) =~= co);
        word_stands_in(words, co, 6);
        second_levels_carry_families(label, co, 'j', 'p');
        assert(label + ".co.jp"@ =~= label + seq!['.'] + (co + seq!['.'] + seq!['j', 'p']));
    }
}

#[verifier::rlimit(60)]
proof fn russian_names(label: Seq<char>)
    requires
        !label.contains('.'),
    ensures
        family_of(label + ".com.ru"@) == Some(label + ".com.ru"@),
        family_of(label + ".msk.ru"@) == Some(label + ".msk.ru"@),
        family_of(label + ".spb.ru"@) == Some(label + ".spb.ru"@),
{
    reveal_strlit(" com msk net nov org pp spb ");
    let words = second_levels('r', 'u');
    assert(family_of(label + ".com.ru"@) == Some(label + ".com.ru"@)) by {
        reveal_strlit(".com.ru");
        let com = seq!['c', 'o', 'm'];
        assert(text::folded(com) =~= com);
        word_stands_in(words, com, 0);
        second_levels_carry_families(label, com, 'r', 'u');
        assert(label + ".com.ru"@ =~= label + seq!['.'] + (com + seq!['.'] + seq!['r', 'u']));
    }
    assert(family_of(label + ".msk.ru"@) == Some(label + ".msk.ru"@)) by {
        reveal_strlit(".msk.ru");
        let msk = seq!['m', 's', 'k'];
        assert(text::folded(msk) =~= msk);
        word_stands_in(words, msk, 4);
        second_levels_carry_families(label, msk, 'r', 'u');
        assert(label + ".msk.ru"@ =~= label + seq!['.'] + (msk + seq!['.'] + seq!['r', 'u']));
    }
    assert(family_of(label + ".spb.ru"@) == Some(label + ".spb.ru"@)) by {
        reveal_strlit(".spb.ru");
        let spb = seq!['s', 'p', 'b'];
        assert(text::folded(spb) =~= spb);
        word_stands_in(words, spb, 23);
        second_levels_carry_families(label, spb, 'r', 'u');
        assert(label + ".spb.ru"@ =~= label + seq!['.'] + (spb + seq!['.'] + seq!['r', 'u']));
    }
}

#[verifier::rlimit(60)]
proof fn ukrainian_names(label: Seq<char>)
    requires
        !label.contains('.'),
    ensures
        family_of(label + ".com.ua"@) == Some(label + ".com.ua"@),
{
    reveal_strlit(" cherkassy chernigov com crimea dnepropetrovsk donetsk edu gov in kharkiv kharkov kherson kiev kyiv lviv net od odesa odessa org poltava rv sumy te vn zp zt ");
    let words = second_levels('u', 'a');
    assert(family_of(label + ".com.ua"@) == Some(label + ".com.ua"@)) by {
        reveal_strlit(".com.ua");
        let com = seq!['c', 'o', 'm'];
        assert(text::folded(com) =~= com);
        word_stands_in(words, com, 20);
        second_levels_carry_families(label, com, 'u', 'a');
        assert(label + ".com.ua"@ =~= label + seq!['.'] + (com + seq!['.'] + seq!['u', 'a']));
    }
}

#[verifier::rlimit(60)]
proof fn turkish_names(label: Seq<char>)
    requires
        !label.contains('.'),
    ensures
        family_of(label + ".com.tr"@) == Some(label + ".com.tr"@),
{
    reveal_strlit(" av bbs bel biz com dr edu gen gov info k12 kep mil name net org pol tel tsk tv web ");
    let words = second_levels('t', 'r');
    assert(family_of(label + ".com.tr"@) == Some(label + ".com.tr"@)) by {
        reveal_strlit(".com.tr");
        let com = seq!['c', 'o', 'm'];
        assert(text::folded(com) =~= com);
        word_stands_in(words, com, 15);
        second_levels_carry_families(label, com, 't', 'r');
        assert(label + ".com.tr"@ =~= label + seq!['.'] + (com + seq!['.'] + seq!['t', 'r']));
    }
}

#[verifier::rlimit(60)]
proof fn korean_names(label: Seq<char>)
    requires
        !label.contains('.'),
    ensures
        family_of(label + ".co.kr"@) == Some(label + ".co.kr"@),
{
    reveal_strlit(" ac co es go hs kg mil ms ne or pe re sc ");
    let words = second_levels('k', 'r');
    assert(family_of(label + ".co.kr"@) == Some(label + ".co.kr"@)) by {
        reveal_strlit(".co.kr");
        let co = seq!['c', 'o'];
        assert(text::folded(co) =~= co);
        word_stands_in(words, co, 3);
        second_levels_carry_families(label, co, 'k', 'r');
        assert(label + ".co.kr"@ =~= label + seq!['.'] + (co + seq!['.'] + seq!['k', 'r']));
    }
}

#[verifier::rlimit(60)]
proof fn indian_names(label: Seq<char>)
    requires
        !label.contains('.'),
    ensures
        family_of(label + ".co.in"@) == Some(label + ".co.in"@),
{
    reveal_strlit(" ac co edu firm gen gov ind mil net nic org res ");
    let words = second_levels('i', 'n');
    assert(family_of(label + ".co.in"@) == Some(label + ".co.in"@)) by {
        reveal_strlit(".co.in");
        let co = seq!['c', 'o'];
        assert(text::folded(co) =~= co);
        word_stands_in(words, co, 3);
        second_levels_carry_families(label, co, 'i', 'n');
        assert(label + ".co.in"@ =~= label + seq!['.'] + (co + seq!['.'] + seq!['i', 'n']));
    }
}

#[verifier::rlimit(60)]
proof fn chinese_names(label: Seq<char>)
    requires
        !label.contains('.'),
    ensures
        family_of(label + ".com.cn"@) == Some(label + ".com.cn"@),
{
    reveal_strlit(" ac com edu gov mil net org ");
    let words = second_levels('c', 'n');
    assert(family_of(label + ".com.cn"@) == Some(label + ".com.cn"@)) by {
        reveal_strlit(".com.cn");
        let com = seq!['c', 'o', 'm'];
        assert(text::folded(com) =~= com);
        word_stands_in(words, com, 3);
        second_levels_carry_families(label, com, 'c', 'n');
        assert(label + ".com.cn"@ =~= label + seq!['.'] + (com + seq!['.'] + seq!['c', 'n']));
    }
}

#[verifier::rlimit(60)]
proof fn south_african_names(label: Seq<char>)
    requires
        !label.contains('.'),
    ensures
        family_of(label + ".co.za"@) == Some(label + ".co.za"@),
{
    reveal_strlit(" ac agric alt co edu gov grondar law mil net ngo nic nis nom org school tm web ");
    let words = second_levels('z', 'a');
    assert(family_of(label + ".co.za"@) == Some(label + ".co.za"@)) by {
        reveal_strlit(".co.za");
        let co = seq!['c', 'o'];
        assert(text::folded(co) =~= co);
        word_stands_in(words, co, 13);
        second_levels_carry_families(label, co, 'z', 'a');
        assert(label + ".co.za"@ =~= label + seq!['.'] + (co + seq!['.'] + seq!['z', 'a']));
    }
}

#[verifier::rlimit(60)]
proof fn new_zealand_names(label: Seq<char>)
    requires
        !label.contains('.'),
    ensures
        family_of(label + ".co.nz"@) == Some(label + ".co.nz"@),
{
    reveal_strlit(" ac co cri geek gen govt health iwi kiwi maori mil net org parliament school ");
    let words = second_levels('n', 'z');
    assert(family_of(label + ".co.nz"@) == Some(label + ".co.nz"@)) by {
        reveal_strlit(".co.nz");
        let co = seq!['c', 'o'];
        assert(text::folded(co) =~= co);
        word_stands_in(words, co, 3);
        second_levels_carry_families(label, co, 'n', 'z');
        assert(label + ".co.nz"@ =~= label + seq!['.'] + (co + seq!['.'] + seq!['n', 'z']));
    }
}

#[verifier::rlimit(60)]
proof fn kazakh_names(label: Seq<char>)
    requires
        !label.contains('.'),
    ensures
        family_of(label + ".com.kz"@) == Some(label + ".com.kz"@),
{
    reveal_strlit(" com edu gov mil net org ");
    let words = second_levels('k', 'z');
    assert(family_of(label + ".com.kz"@) == Some(label + ".com.kz"@)) by {
        reveal_strlit(".com.kz");
        let com = seq!['c', 'o', 'm'];
        assert(text::folded(com) =~= com);
        word_stands_in(words, com, 0);
        second_levels_carry_families(label, com, 'k', 'z');
        assert(label + ".com.kz"@ =~= label + seq!['.'] + (com + seq!['.'] + seq!['k', 'z']));
    }
}

#[verifier::rlimit(60)]
proof fn belarusian_names(label: Seq<char>)
    requires
        !label.contains('.'),
    ensures
        family_of(label + ".com.by"@) == Some(label + ".com.by"@),
{
    reveal_strlit(" com gov mil of ");
    let words = second_levels('b', 'y');
    assert(family_of(label + ".com.by"@) == Some(label + ".com.by"@)) by {
        reveal_strlit(".com.by");
        let com = seq!['c', 'o', 'm'];
        assert(text::folded(com) =~= com);
        word_stands_in(words, com, 0);
        second_levels_carry_families(label, com, 'b', 'y');
        assert(label + ".com.by"@ =~= label + seq!['.'] + (com + seq!['.'] + seq!['b', 'y']));
    }
}

/// Registered names under the second levels of widely used countries are
/// families: a label and the suffix, whatever the label is.
pub proof fn registered_names_are_families(label: Seq<char>)
    requires
        !label.contains('.'),
    ensures
        family_of(label + ".co.uk"@) == Some(label + ".co.uk"@),
        family_of(label + ".org.uk"@) == Some(label + ".org.uk"@),
        family_of(label + ".ac.uk"@) == Some(label + ".ac.uk"@),
        family_of(label + ".gov.uk"@) == Some(label + ".gov.uk"@),
        family_of(label + ".com.au"@) == Some(label + ".com.au"@),
        family_of(label + ".com.br"@) == Some(label + ".com.br"@),
        family_of(label + ".co.jp"@) == Some(label + ".co.jp"@),
        family_of(label + ".com.ru"@) == Some(label + ".com.ru"@),
        family_of(label + ".msk.ru"@) == Some(label + ".msk.ru"@),
        family_of(label + ".spb.ru"@) == Some(label + ".spb.ru"@),
        family_of(label + ".com.ua"@) == Some(label + ".com.ua"@),
        family_of(label + ".com.tr"@) == Some(label + ".com.tr"@),
        family_of(label + ".co.kr"@) == Some(label + ".co.kr"@),
        family_of(label + ".co.in"@) == Some(label + ".co.in"@),
        family_of(label + ".com.cn"@) == Some(label + ".com.cn"@),
        family_of(label + ".co.za"@) == Some(label + ".co.za"@),
        family_of(label + ".co.nz"@) == Some(label + ".co.nz"@),
        family_of(label + ".com.kz"@) == Some(label + ".com.kz"@),
        family_of(label + ".com.by"@) == Some(label + ".com.by"@),
{
    british_names(label);
    australian_names(label);
    brazilian_names(label);
    japanese_names(label);
    russian_names(label);
    ukrainian_names(label);
    turkish_names(label);
    korean_names(label);
    indian_names(label);
    chinese_names(label);
    south_african_names(label);
    new_zealand_names(label);
    kazakh_names(label);
    belarusian_names(label);
}

} // verus!
