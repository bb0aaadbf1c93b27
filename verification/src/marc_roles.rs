//! Relator terms of the MARC list, by their codes.
use crate::text::{
    after_prefix, char_vec, opt_text, pieces_between, split_between, strip_prefix, text2, texts,
};
use vstd::prelude::*;

verus! {

/// One line for each role: a code of three letters, a space, and the term. The code
/// `rev` has no line, so a role of that code is not shown.
pub const ROLE_TERMS: &'static str = "abr abridger
acp art copyist
act actor
adi art director
adp adapter
aft author of afterword, colophon, etc.
anl analyst
anm animator
ann annotator
ant bibliographic antecedent
ape appellee
apl appellant
app applicant
aqt author in quotations or text abstracts
arc architect
ard artistic director
arr arranger
art artist
asg assignee
asn associated name
ato autographer
att attributed name
auc auctioneer
aud author of dialog
aui author of introduction, etc.
aus screenwriter
aut author
bdd binding designer
bjd bookjacket designer
bkd book designer
bkp book producer
blw blurb writer
bnd binder
bpd bookplate designer
brd broadcaster
brl braille embosser
bsl bookseller
cas caster
ccp conceptor
chr choreographer
cli client
cll calligrapher
clr colorist
clt collotyper
cmm commentator
cmp composer
cmt compositor
cnd conductor
cng cinematographer
cns censor
coe contestant-appellee
col collector
com compiler
con conservator
cor collection registrar
cos contestant
cot contestant-appellant
cou court governed
cov cover designer
cpc copyright claimant
cpe complainant-appellee
cph copyright holder
cpl complainant
cpt complainant-appellant
cre creator
crp correspondent
crr corrector
crt court reporter
csl consultant
csp consultant to a project
cst costume designer
ctb contributor
cte contestee-appellee
ctg cartographer
ctr contractor
cts contestee
ctt contestee-appellant
cur curator
cwt commentator for written text
dbp distribution place
dfd defendant
dfe defendant-appellee
dft defendant-appellant
dgg degree granting institution
dgs degree supervisor
dis dissertant
dln delineator
dnc dancer
dnr donor
dpc depicted
dpt depositor
drm draftsman
drt director
dsr designer
dst distributor
dtc data contributor
dte dedicatee
dtm data manager
dto dedicator
dub dubious author
edc editor of compilation
edm editor of moving image work
edt editor
egr engraver
elg electrician
elt electrotyper
eng engineer
enj enacting jurisdiction
etr etcher
evp event place
exp expert
fac facsimilist
fds film distributor
fld field director
flm film editor
fmd film director
fmk filmmaker
fmo former owner
fmp film producer
fnd funder
fpy first party
frg forger
gis geographic information specialist
his host institution
hnr honoree
hst host
ill illustrator
ilu illuminator
ins inscriber
inv inventor
isb issuing body
itr instrumentalist
ive interviewee
ivr interviewer
jud judge
jug jurisdiction governed
lbr laboratory
lbt librettist
ldr laboratory director
led lead
lee libelee-appellee
lel libelee
len lender
let libelee-appellant
lgd lighting designer
lie libelant-appellee
lil libelant
lit libelant-appellant
lsa landscape architect
lse licensee
lso licensor
ltg lithographer
lyr lyricist
mcp music copyist
mdc metadata contact
med medium
mfp manufacture place
mfr manufacturer
mod moderator
mon monitor
mrb marbler
mrk markup editor
msd musical director
mte metal-engraver
mtk minute taker
mus musician
nrt narrator
opn opponent
org originator
orm organizer
osp onscreen presenter
oth other
own owner
pan panelist
pat patron
pbd publishing director
pbl publisher
pdr project director
pfr proofreader
pht photographer
plt platemaker
pma permitting agency
pmn production manager
pop printer of plates
ppm papermaker
ppt puppeteer
pra praeses
prc process contact
prd production personnel
pre presenter
prf performer
prg programmer
prm printmaker
prn production company
pro producer
prp production place
prs production designer
prt printer
prv provider
pta patent applicant
pte plaintiff-appellee
ptf plaintiff
pth patent holder
ptt plaintiff-appellant
pup publication place
rbr rubricator
rcd recordist
rce recording engineer
rcp addressee
rdd radio director
red redaktor
ren renderer
res researcher
rpc radio producer
rps repository
rpt reporter
rpy responsible party
rse respondent-appellee
rsg restager
rsp respondent
rsr restorationist
rst respondent-appellant
rth research team head
rtm research team member
sad scientific advisor
sce scenarist
scl sculptor
scr scribe
sds sound designer
sec secretary
sgd stage director
sgn signer
sht supporting host
sll seller
sng singer
spk speaker
spn sponsor
spy second party
srv surveyor
std set designer
stg setting
stl storyteller
stm stage manager
stn standards body
str stereotyper
tcd technical director
tch teacher
ths thesis advisor
tld television director
tlp television producer
trc transcriber
trl translator
tyd type designer
tyg typographer
uvp university place
vac voice actor
vdg videographer
wac writer of added commentary
wal writer of added lyrics
wam writer of accompanying material
wat writer of added text
wdc woodcutter
wde wood engraver
win writer of introduction
wit witness
wpr writer of preface
wst writer of supplementary textual content";

/// The term on a line, when the line is that of a code.
pub open spec fn line_term(line: Seq<char>, code: Seq<char>) -> Option<Seq<char>> {
    if code.len() == 3 {
        after_prefix(line, code + " "@)
    } else {
        None
    }
}

/// The term of a code on the lines from a place on.
pub open spec fn term_from(lines: Seq<Seq<char>>, code: Seq<char>, i: int) -> Option<Seq<char>>
    decreases lines.len() - i,
{
    if i < 0 || i >= lines.len() {
        None
    } else {
        match line_term(lines[i], code) {
            Some(term) => Some(term),
            None => term_from(lines, code, i + 1),
        }
    }
}

/// The term that a role code stands for.
pub open spec fn term_of(code: Seq<char>) -> Option<Seq<char>> {
    term_from(pieces_between(ROLE_TERMS@, '\n'), code, 0)
}

/// Looks up the term that a role code stands for.
pub fn role_term(code: &str) -> (r: Option<String>)
    ensures
        opt_text(r) == term_of(code@),
{
    let lines = split_between(ROLE_TERMS, '\n');
    let short: bool = char_vec(code).len() == 3;
    let start = text2(code, " ");
    let mut i: usize = 0;
    while i < lines.len()
        invariant
            i <= lines@.len(),
            texts(lines@) == pieces_between(ROLE_TERMS@, '\n'),
            short == (code@.len() == 3),
            start@ == code@ + " "@,
            term_of(code@) == term_from(texts(lines@), code@, i as int),
        decreases lines@.len() - i,
    {
        proof {
            assert(texts(lines@)[i as int] == lines@[i as int]@);
        }
        if short {
            if let Some(term) = strip_prefix(lines[i].as_str(), start.as_str()) {
                return Some(term);
            }
        }
        i = i + 1;
    }
    None
}

} // verus!
