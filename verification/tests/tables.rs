use astroport_pool::error::PoolError;
use astroport_pool::math::mul_div;
use astroport_pool::solver::{calc_ask_amount, compute_d, compute_y};

const INVARIANTS: &[(u64, u128, u128, Result<u128, PoolError>)] = &[
    (1000, 371336328649200, 74679654545353253199735000607951223696, Err(PoolError::Overflow)),
    (85, 302345278314582627946195897232024957, 406804126819595498276269414780246506, Ok(709057997123259227974308799316362476)),
    (100, 20, 39, Ok(58)),
    (1000, 14825221413418679168547259903304118645, 78614242073265760386113114741, Err(PoolError::Overflow)),
    (100, 300943, 74515586102693828748989184112769122, Err(PoolError::Overflow)),
    (1000, 859851198766961818, 331454619145757683, Ok(1191160133677746283)),
    (85, 197590733410933113, 319201692313585308, Ok(516616471266721485)),
    (1, 36728103971907737426085660326977459092, 41281972626908800676240120353069435253, Ok(77943518854114865600511640122306593831)),
    (10, 365432124872, 468510726522177555001, Ok(1855949292066923417)),
    (1000000, 896, 996710818897998028, Ok(1922645699844674)),
    (85, 421033633712211180, 11705327566897, Ok(102289023347677920)),
    (2, 8, 14, Ok(21)),
    (85, 3778418893254774382085672530, 8, Err(PoolError::Overflow)),
    (100, 630992587482, 998835493541, Ok(1629395375196)),
    (85, 703569884604844753277, 813251604012906674501, Ok(1516775139360076037162)),
    (10, 873364482164474803568402, 0, Err(PoolError::InsufficientFunds)),
    (2, 297497, 259626, Ok(556693)),
    (85, 60732563091215501650190, 448711747128, Err(PoolError::ConvergenceFailure)),
    (10, 0, 12061399810209815646756063706320283282, Err(PoolError::InsufficientFunds)),
    (100, 73286271095939293873041699874927986817, 84984161951, Err(PoolError::Overflow)),
    (2, 272306564234119645288559618211921366, 2, Err(PoolError::Overflow)),
    (2, 1, 2, Ok(3)),
    (2, 35271749448565718299308927455380968520, 75816655608493194996497963912681926896, Err(PoolError::Overflow)),
    (10, 981732673943, 905425080013502, Ok(345200409899820)),
    (10, 44335779994958018408236718048645311315, 42638586755249563066204189087469503741, Err(PoolError::Overflow)),
    (2, 970, 89, Ok(840)),
    (100, 90180545157892542, 184920616190071259, Ok(274918272123015222)),
    (1, 531548, 1452791, Ok(1865827)),
    (1000, 55, 721, Ok(774)),
    (1000, 786931269309418013, 989711094732743424, Ok(1776630650948609928)),
    (1000000, 290581573, 328456957050788904874593112885962480, Err(PoolError::Overflow)),
    (10, 719862172, 372523041, Ok(1086880757)),
    (1000, 60177099348753564314692811217426711447, 65806123682510827732915114562819023276, Err(PoolError::Overflow)),
    (1000, 28, 1, Ok(28)),
    (2, 28, 51, Ok(78)),
    (1000000, 1954370714693096763040565747945296799, 4977600822441520374256192311313637570, Err(PoolError::Overflow)),
    (2, 808568381076278707378504026640525255, 741748659, Err(PoolError::Overflow)),
    (100, 111362155915, 100188971369, Ok(211548197858)),
    (10, 240236207417289205, 31, Err(PoolError::ConvergenceFailure)),
    (10, 567904902433634962023, 9210815154403681449188224466, Ok(155945640042115094639560045)),
    (1000, 751282840732657924417576374165, 5915644611534736075236406104853932398, Err(PoolError::Overflow)),
    (1000, 514659454300831885389807769666036937, 1466518045963893951052471800534580205, Err(PoolError::Overflow)),
    (1000000, 264726942121420172628181, 626262894188210015643148, Ok(890989748502383646007363)),
    (1, 517386202, 773638102401855386, Ok(1352696071886754)),
    (2, 766641628, 207706159712599815915830834042514942, Err(PoolError::Overflow)),
    (10, 357750613884144205421205439381617615, 164277061667745845158866351014605141, Ok(518325616172829373830440299660551491)),
    (1, 928857728498592, 866718739048402, Ok(1795038579206728)),
    (1000, 205013660552533096348, 264773600596718149086, Ok(469783401664778444408)),
    (1000, 949038024759355313, 2353788905421261392, Ok(3302462708628203609)),
    (10, 60393, 165684, Ok(223328)),
    (10, 897, 613, Ok(1507)),
    (1000, 620199263, 951227280, Ok(1571390096)),
    (10, 7, 669961238, Ok(6292139)),
    (2, 798108700765813917126414, 1129134293343478564783696, Ok(1917600449210268508480169)),
    (1000, 1, 673428258182326696, Ok(15365767288090)),
    (85, 319, 938904, Ok(460974)),
    (10, 446880131686, 845140447836, Ok(1285937400913)),
    (2, 899, 980586366287, Ok(2398931961)),
    (2, 63, 89, Ok(151)),
    (10, 971096587225261769057, 2128619486190599592476, Ok(3077353044357115136771)),
    (85, 417959928846316432151886412917920538, 808353357727159370069605676817463353, Ok(1225510806622721458938987119779869543)),
    (1000000, 47, 52, Ok(99)),
    (85, 741804039271196180039702415664059928, 1349309430272728761762155639177953811, Err(PoolError::Overflow)),
    (10, 223974916512559, 0, Err(PoolError::InsufficientFunds)),
    (1000, 5, 62764965806, Ok(538581269)),
    (1000000, 47118212569516761401165120916495061056, 4185946853266951787125513956513770786, Err(PoolError::Overflow)),
    (10, 592155, 510251034614, Ok(22773299059)),
    (1, 316481048, 251765307, Ok(566393252)),
    (85, 643248278628323908, 296326916272314585628, Ok(218153867561195802499)),
    (100, 911760563, 1282506691, Ok(2193948171)),
    (2, 74569095753469524020020449259532216653, 220100611797135616367830645609394654123, Err(PoolError::Overflow)),
    (1000000, 496378287419919789486132120551131897, 615147403438974472492248312432892728, Err(PoolError::Overflow)),
    (1000000, 748597648707037352, 34, Ok(534054150014497)),
    (10, 211245824501596, 1, Err(PoolError::ConvergenceFailure)),
    (100, 509865664764014490372, 898794401704332848, Ok(372097045558488835056)),
    (100, 999291721, 411752119311364306500081, Ok(51364928085794975737)),
    (1000000, 418026566421466120495822, 462408868903027970, Ok(381984523220363173226283)),
    (10, 706915434436, 742430088570711, Ok(272871899974236)),
    (1, 0, 290, Err(PoolError::InsufficientFunds)),
    (1, 466690463098089163, 514843358591940497, Ok(980942617835425871)),
    (100, 24, 29, Ok(53)),
    (1000, 819181458026, 1164507210320, Ok(1983657703797)),
    (1000, 781943122519260187524963984482934163, 33026, Err(PoolError::Overflow)),
    (1000000, 529842661442990237, 9, Err(PoolError::ConvergenceFailure)),
    (1, 627, 812843764076757952076498166836, Err(PoolError::Overflow)),
    (100, 109987606555498704341113032404939426, 4, Err(PoolError::Overflow)),
    (1000, 0, 2, Err(PoolError::InsufficientFunds)),
    (100, 99315180680390962726049913859558017468, 121505795703048514041967536432196961090, Err(PoolError::Overflow)),
    (85, 704776342208, 435580609152, Ok(1139966088132)),
    (85, 733437453352, 761495175309501154960863310624180535, Err(PoolError::Overflow)),
    (1000, 796431839592546439557, 1498795426051476091029, Ok(2295108834087579152014)),
    (100, 1, 30364024409148581265456263396977864549, Err(PoolError::Overflow)),
    (1000000, 244552004370977050948635879667, 424843909002631365368114804276, Ok(669395887195129109308485761165)),
    (100, 30, 2, Ok(31)),
    (2, 543252382813202133584167843910, 830179902607938841081724718225, Ok(1363179915128021755822401490249)),
    (100, 5764986596165147319905141691, 12466830291416044516195333923, Ok(18217748249958950562774302241)),
    (10, 507592, 1008700, Ok(1507973)),
    (2, 804479196917964634, 1877921916254088549, Ok(2603319622511131555)),
    (100, 746910322602152814, 844263815439902100551244301552, Err(PoolError::Overflow)),
    (1000, 6, 1, Ok(6)),
    (10, 28, 71, Ok(98)),
    (10, 350936184044886192383186957510, 498078366301394048861841418422, Ok(847824305798614225905606494964)),
    (100, 157434469939334226, 460080520970096733, Ok(616553043433283505)),
    (100, 34, 1, Ok(33)),
    (100, 701752, 1976455, Ok(2674340)),
    (85, 51, 173978848921501104361, Err(PoolError::Overflow)),
    (1000, 333900863255, 818937739822342475731964424662147855, Err(PoolError::Overflow)),
    (1, 0, 0, Ok(0)),
    (1, 19, 612277170769161, Ok(38480616795)),
    (10, 19, 57, Ok(74)),
    (1, 82268183844546147511266615933466429107, 976488957267, Err(PoolError::Overflow)),
    (10, 400650326433871, 756540466959882, Ok(1151769345419398)),
    (1000, 95453283136, 201528519517478064875, Ok(3125525202228541773)),
    (10, 258, 340, Ok(597)),
    (85, 484327838474956986368189, 643088605736437136563452, Ok(1127283881998359070599108)),
    (1, 567843649892067489286875140436, 469406294748799872999010694478, Ok(1034905211300521212965432002529)),
    (85, 758931319098140516295, 1847219554566721692551, Ok(2602962330919728033206)),
    (1, 4, 13, Ok(15)),
    (10, 834717832644611230206611121476909357, 2308781526645374694490071914156217480, Ok(3104634096343548262923271451452597082)),
    (100, 3267506562276546853518757043687654482, 0, Err(PoolError::InsufficientFunds)),
];

const BALANCES: &[(u64, u128, u128, Result<u128, PoolError>)] = &[
    (85, 815, 980, Ok(169)),
    (1, 516064210045671084, 138, Ok(0)),
    (85, 75, 561, Ok(490)),
    (100, 143047977, 349356528, Ok(206367254)),
    (1000000, 939461, 1201856, Ok(262395)),
    (1000, 0, 387936, Err(PoolError::InsufficientFunds)),
    (85, 879024, 229074130931740932354872506458009272, Err(PoolError::Overflow)),
    (100, 170666036744114781, 1, Ok(0)),
    (1000000, 475432467281272870594627379973714589, 3065089741253703767329570006888264284, Err(PoolError::Overflow)),
    (85, 534062397, 638443175, Ok(107303325)),
    (1, 913131171650841, 1013961767527649, Ok(225813303903575)),
    (10, 238834629428300834122, 642423152453533006887, Err(PoolError::Overflow)),
    (2, 541746924862, 7, Ok(0)),
    (1000000, 880020165, 1600449371, Ok(720429214)),
    (1000000, 88998549587697053139, 167974718031, Ok(0)),
    (85, 280150148364858487937, 961311797353301267873520, Err(PoolError::Overflow)),
    (2, 347619005003910984, 507905217820408070, Ok(171039649399255118)),
    (1, 187179121006538375, 480649536672026352, Ok(300179715952108465)),
    (2, 599497938642406109559027, 174, Ok(0)),
    (85, 47, 228681426020, Ok(611819977193200)),
    (1000000, 974, 1, Ok(0)),
    (1000, 966977188321263676, 479, Ok(0)),
    (2, 577394221869578903910012, 1234077148110954050984344, Err(PoolError::Overflow)),
    (10, 748829541608990, 1370292742620247, Ok(622000574817409)),
    (100, 402579839011000528, 1008607797246813381, Ok(606240011673350006)),
    (100, 308317514579857927119631, 398913114476987468886478, Err(PoolError::Overflow)),
    (85, 617143534638307657302222832849355293, 1656437785515399270357665173512700660, Err(PoolError::Overflow)),
    (85, 444846208335117507613573742293, 1001556121358305602401931423623, Err(PoolError::Overflow)),
    (10, 585265236547527963650519043823249112, 1712975009787348107514121408422192484, Err(PoolError::Overflow)),
    (100, 81273, 163377, Ok(82104)),
    (10, 281311814551033983156824643237979550, 655871658077366328709434604084767985, Err(PoolError::Overflow)),
    (2, 79506659494239526012971482106095480450, 87823721767508743469859216148052661011, Err(PoolError::Overflow)),
    (10, 117072759341634110, 150444452582661817, Ok(35959802201816326)),
    (1, 446, 857, Ok(411)),
    (10, 926251827685, 2018056106982, Ok(1092429774389)),
    (85, 105837646001, 730274057146954564966469, Err(PoolError::Overflow)),
    (100, 782193289349508078884881824296, 772285653981280074097300, Err(PoolError::Overflow)),
    (1000000, 657192623070343591936887360748332314, 855051046, Ok(0)),
    (1000000, 598403123070203392103611919415, 1637257056495582360018600161734, Err(PoolError::Overflow)),
    (100, 303391533304161111575199, 99693477004360723641997160924150627711, Err(PoolError::Overflow)),
    (2, 9, 79202774215921626159, Err(PoolError::Overflow)),
    (10, 144, 411, Ok(269)),
    (1000000, 29925190968250314842485067006503834217, 810, Ok(0)),
    (10, 2, 4, Ok(2)),
    (1, 820231434104400598629501938022353195, 2355671913513661142727192347378969289, Err(PoolError::Overflow)),
    (1, 129624271, 160165310, Ok(42873304)),
    (100, 616073620216016027585473, 1150732643953798109689901, Err(PoolError::Overflow)),
    (1, 353137295231479930382812704084973837, 630938274770282696330683425452082440, Err(PoolError::Overflow)),
    (10, 341, 21394209043207064342806038394836201653, Err(PoolError::Overflow)),
    (1, 6, 13, Ok(7)),
    (2, 257499072241143, 713320061869276, Ok(466383411207813)),
    (85, 901851475079686637793454648515, 1630135529125318391896153300884, Err(PoolError::Overflow)),
    (100, 6, 8, Ok(2)),
    (85, 26, 585002528882716118257, Err(PoolError::Overflow)),
    (1, 627252375, 702549184, Ok(158901817)),
    (2, 608183608447, 1325347686286, Ok(718704593114)),
    (85, 118978145438255167402, 232343692787269371441, Ok(113366335835180650460)),
    (85, 27679936172865, 725040740, Ok(0)),
    (1, 981421589, 1617164375, Ok(652587107)),
    (2, 983, 1759, Ok(780)),
    (1000000, 0, 0, Err(PoolError::InsufficientFunds)),
    (100, 45, 53271140071771074144539182169416876551, Err(PoolError::Overflow)),
    (10, 27219494998420769998619236888992260818, 52599319024900925732988245178081698027, Err(PoolError::Overflow)),
    (10, 429991929380970622, 1240438813808387039, Ok(816388900987607019)),
    (2, 0, 657844, Err(PoolError::InsufficientFunds)),
    (1000, 515501888768772174327574898082, 415487, Ok(0)),
    (85, 962953, 1224334, Ok(264765)),
    (10, 0, 437929815449565294237810723729, Err(PoolError::InsufficientFunds)),
    (85, 1, 2, Ok(1)),
    (1000000, 122628785978083295239859, 282148541976562152607125, Err(PoolError::Overflow)),
    (1000000, 0, 0, Err(PoolError::InsufficientFunds)),
    (1000000, 419479045029431009, 1096201517839199336, Ok(676722504752183208)),
    (2, 19253742456838279459674603270635235237, 38166951060213104428983538521977615992, Err(PoolError::Overflow)),
    (10, 37765718691605, 874254591085513, Ok(1011443682286025)),
    (10, 48169834253872751, 104130058446633412, Ok(55987023519551765)),
    (1000, 0, 193, Err(PoolError::InsufficientFunds)),
    (2, 46296397021078992825337812054815600848, 772357112893217286827, Ok(0)),
    (10, 65461, 385295285, Ok(3492913157)),
    (100, 2, 4, Ok(2)),
    (2, 180407857651, 344179223147, Ok(163903398564)),
    (85, 781880574844744426319554, 0, Ok(0)),
    (100, 1, 2, Ok(1)),
    (85, 47, 179890243102289005132635, Err(PoolError::Overflow)),
    (2, 976, 2129, Ok(1155)),
    (85, 221090230479655899484773857415, 0, Ok(0)),
    (100, 17669094876054890368162122740306202694, 3, Ok(0)),
    (1000000, 3, 4, Ok(1)),
    (2, 482521948168907833590226799161, 561291718121643683118034678893, Err(PoolError::Overflow)),
    (1000000, 315910033443110179629127, 695507834616046382676883, Err(PoolError::Overflow)),
    (1, 67, 93, Ok(29)),
    (1, 89, 1, Ok(0)),
    (100, 410571241421211668, 969256822370520925752, Err(PoolError::Overflow)),
    (100, 442778, 1, Ok(0)),
    (2, 0, 98, Err(PoolError::InsufficientFunds)),
    (100, 789434095261491130824075293190, 1, Ok(0)),
    (2, 391157, 1077082, Ok(701331)),
    (1, 214776303, 500604289900852447075470, Err(PoolError::Overflow)),
    (1000, 15831570428273894808111381189384797606, 21178807475946993407264233488283659907, Err(PoolError::Overflow)),
    (10, 587660707149408141380839275635, 784030568659332440658902635006, Err(PoolError::Overflow)),
    (1000, 6, 10, Ok(4)),
    (10, 293787929048777573455792599449, 594748369892294611698438392759, Err(PoolError::Overflow)),
    (2, 29, 78, Ok(50)),
    (2, 884527032972691603394, 4, Ok(0)),
    (1000, 35, 73, Ok(38)),
    (1, 196953649733, 297268128771, Ok(107201629661)),
    (85, 32986149512556281362032645216057820522, 153816375187091005181310, Ok(0)),
    (2, 902884879, 1515500459, Ok(621451748)),
    (10, 475575615972207383802910048608, 945360598482609212938248273615, Err(PoolError::Overflow)),
    (1000000, 314885261705208232, 569, Ok(0)),
    (2, 960403592322792008537908991342, 1347388812658783058667115275923, Err(PoolError::Overflow)),
    (100, 444712359939663603884190452346859276, 101080786710661664427209928326807862, Err(PoolError::Overflow)),
    (1000, 35085058706172235342789851185869359619, 88, Ok(0)),
    (1, 386090367389605583011417685953462462, 7, Ok(0)),
    (1000000, 172487921790258908886199, 268356124325975703665217, Err(PoolError::Overflow)),
    (100, 140036570673884715, 850706638803647511, Ok(714112119386458382)),
    (1, 874707246946635790424544914279, 274003601100475093339148, Err(PoolError::Overflow)),
    (10, 658120809943, 1816296320334, Ok(1165044378398)),
    (1000, 523825245770179, 754049080008, Ok(195)),
    (85, 837572148029543408003363, 1242256673363308236319185, Err(PoolError::Overflow)),
    (2, 64208241503997980026387355345992503863, 173887839891517912321502761688294283077, Err(PoolError::Overflow)),
];

const ASKS: &[(u128, u128, u128, u64, Result<u128, PoolError>)] = &[
    (969948248517, 764529764507, 139467993940, 2, Ok(121925672315)),
    (715989573149205866945, 805, 777364, 85, Err(PoolError::Overflow)),
    (599734541243362073020110491280, 1438944394254402469246312751271, 58475107701028089748400811623, 1, Err(PoolError::Overflow)),
    (131380508570474, 320864759364922, 57699357536915, 85, Ok(58185580071057)),
    (1, 2, 1, 85, Ok(1)),
    (503739268455013, 678785580770289577, 671688825971633571664, 1, Ok(678785580300609144)),
    (269700870796930, 358964470569061, 211237739116185, 1000000, Ok(211237622777542)),
    (491557, 568113, 398654, 85, Ok(393654)),
    (744849914, 1676060705, 526042123, 2, Ok(589057314)),
    (908909512342139, 2510023031822095, 788248180662691, 2, Ok(931239729618815)),
    (7, 555398085011229, 122429327841982352, 85, Ok(555398085011229)),
    (6227270265946290879504875257242079002, 6378874538407845431342766450452772653, 470560041749402182607045735778595710, 10, Err(PoolError::Overflow)),
    (559798224, 515585362, 339141332, 1, Ok(243138066)),
    (779141254925643729, 1794084395061715553, 67316284855831758, 10, Ok(73309040186663063)),
    (44251580910972752741195, 21850241302523910517954, 44131223819985395035119, 85, Err(PoolError::Overflow)),
    (421614440764342367879510905420100548, 887006269963841133185499217743323653, 20334267096794408385444831984994661, 100, Err(PoolError::Overflow)),
    (4, 13, 3, 85, Ok(4)),
    (279428, 189396, 144812, 1, Ok(88598)),
    (442770072344822727800, 1177652131563940318783, 128096511306241496264, 1000, Err(PoolError::Overflow)),
    (126969165970956906251514989699, 156232074774602553763880631161, 43367958707782347953829832091, 85, Err(PoolError::Overflow)),
    (40439341065727340, 331778608791245094582926393571, 350269447920465812239799066890966303, 1, Err(PoolError::Overflow)),
    (56, 414884401099, 197120220892629873606306, 1000000, Ok(414884401099)),
    (527431595633114216967, 1416983086410687927824, 295082028262395640955, 1000000, Ok(295082261995363458585)),
    (558, 415562393, 94233, 1000, Ok(322082409)),
    (623865873511512911820, 225512865299031859936, 377955003881005151333, 85, Err(PoolError::Overflow)),
    (199788858, 376670629308433885810971, 1, 1, Err(PoolError::Overflow)),
    (292464742517139, 444909388461389, 99604, 1, Ok(123271)),
    (691977486647975885317747926460728837, 348202032967528227977369246088653018, 35825251450642445871285898888765814, 1000, Err(PoolError::Overflow)),
    (23, 51, 21, 85, Ok(22)),
    (318450513983339663613, 710854033196246610740, 97146734678044178444, 2, Err(PoolError::Overflow)),
    (864346, 1388814, 311226, 1000, Ok(311289)),
    (25, 13, 11, 2, Ok(7)),
    (209883977570774904385434488685635955, 396420694146686938307106856463187544, 150935005540333025843643141926665516, 1, Err(PoolError::Overflow)),
    (74, 138, 43, 85, Ok(44)),
    (94067306559811672338296994769738056771, 95180023582106808400856045407143396061, 27807150875432427454014146383614674766, 1000, Err(PoolError::Overflow)),
    (161595456452608005260, 290517052377476225637, 127794875160863883883, 2, Err(PoolError::Overflow)),
    (80, 76, 42, 1000, Ok(42)),
    (641, 1745, 90, 1000000, Ok(91)),
    (850642612124613101299003297789056239, 1749517682321839853249513748732813950, 300733764958919755645972728415695954, 10, Err(PoolError::Overflow)),
    (219272054989368310341770, 807, 828, 2, Err(PoolError::Overflow)),
    (94256848671833960373168520303067523223, 0, 47559536831085074387263922073579616, 85, Err(PoolError::InsufficientFunds)),
    (632, 352, 338, 2, Ok(202)),
    (732405522175089099011775, 1996336400412024850223788, 628928763200969548857870, 2, Err(PoolError::Overflow)),
    (6, 346816392345535, 950, 2, Ok(319333043005391)),
    (72, 93, 55, 10, Ok(54)),
    (678334391389081640276942492743644279, 904392930490142201102260259192156247, 473905137039471237145856201104884345, 1000000, Err(PoolError::Overflow)),
    (604423080212614367912768972286514811, 1271102277870440281236666071339918439, 431263414136439660093756206817453231, 1000, Err(PoolError::Overflow)),
    (24401058907351959409668602441426210693, 134340264706136463405969, 534589798, 1000000, Err(PoolError::Overflow)),
    (278069018096871278962, 730733075753220172723, 105442422830704523683, 1, Err(PoolError::Overflow)),
    (485679649302916408750, 669888967700079851176, 314656641089381920575, 1, Err(PoolError::Overflow)),
    (755660210518938379574454542853437668, 3, 214332343002448153932977405554, 1000000, Err(PoolError::Overflow)),
    (61, 362734985771303443413620, 294, 100, Err(PoolError::Overflow)),
    (886601750052466772572, 2302488304060458287141, 19842056570878550526, 10, Err(PoolError::Overflow)),
    (525246307333407, 572, 561047229, 100, Err(PoolError::ConvergenceFailure)),
    (912898212491078, 1090237816230961, 281682435584211, 85, Ok(281326479854269)),
    (73703416148000980176181722637657763168, 419207942213455, 973604429016997593941653, 85, Err(PoolError::Overflow)),
    (95587113087677555, 1, 428263786622108061056809503386, 10, Err(PoolError::ConvergenceFailure)),
    (95528549467753195171064316959391990277, 256689871182167148142212472928932704358, 86321906500909944295171285996479233704, 100, Err(PoolError::Overflow)),
    (657061755790457941971136384371, 494846017224, 6, 85, Err(PoolError::Overflow)),
    (692, 1742, 598, 10, Ok(623)),
    (319329994744461442335, 333918747125, 612024066202250343215222019067756449, 1000, Ok(333918747125)),
    (721017549005334, 783, 365, 10, Err(PoolError::ConvergenceFailure)),
    (185383240450790853379607419951, 392518246986091126987346263774, 139966948660747916555765979080, 2, Err(PoolError::Overflow)),
    (138019459539708731764963786275, 59759354561796204263829980522, 83146016064949025310880146469, 1000, Err(PoolError::Overflow)),
    (362705028618636998475, 587219022230712134659, 892904132775034382310241, 1000, Ok(587219022096300277830)),
    (838, 1972, 388, 1, Ok(507)),
    (305077090546261840, 386202369996707781, 261045676140666109, 1000000, Ok(261045443826008399)),
    (319960280407817659, 1, 342555867461425570439389121918, 85, Err(PoolError::ConvergenceFailure)),
    (765416100613046, 708201442447238, 381001094080627, 1000000, Ok(381000765632867)),
    (701, 1172, 617, 2, Ok(587)),
    (49, 41, 18, 85, Ok(18)),
    (858776, 5, 815746135479, 10, Ok(5)),
    (1, 4, 0, 1000000, Ok(1)),
    (8100619721228973844, 16661227673266689020, 2503919719130096958, 85, Ok(2520418007153190698)),
    (488056772594198175133515174688254695, 362286253455648, 43212298354529536977328714422693698659, 85, Err(PoolError::Overflow)),
    (45628122, 517763147153376012, 28, 85, Ok(158555114766)),
    (49386240093377437564276112720760007579, 436991919613809883501595, 18, 10, Err(PoolError::Overflow)),
    (278311571266202651767026, 48639429940138668563859583955601285195, 229, 1000000, Err(PoolError::Overflow)),
    (74, 252398530004725336, 711813346192974642378251, 10, Ok(252398530004725336)),
    (592478776893033738679378343529590089, 1532478327954776281369765147400040343, 195839637305658217325289792323203876, 1000, Err(PoolError::Overflow)),
    (76749294, 189843730, 42248688, 1, Ok(55055710)),
    (10, 8, 0, 1, Ok(0)),
    (976034400746300, 711206963678628, 921771991528331, 1, Ok(472098706098332)),
    (1, 2, 0, 100, Ok(0)),
    (584613398400983003, 1, 1, 1000, Err(PoolError::ConvergenceFailure)),
    (27, 78, 25, 2, Ok(30)),
    (436926, 323759, 258752, 1000000, Ok(258752)),
    (382876478030971213617565361237207374, 477633857029140484506818758282136903, 159484840228858339521907873910854411, 10, Err(PoolError::Overflow)),
    (26359528007190, 28544842473381, 19578290366427, 10, Ok(18040728637010)),
    (737104120802262, 2143486684574248, 622076139324818, 1000000, Ok(622076585505039)),
    (58749211408956053, 95100911537455129, 296775900481718, 2, Ok(350164066288241)),
    (498564, 708602, 251767, 85, Ok(251546)),
    (954, 1898, 927, 1000, Ok(928)),
    (73130064337346683297597, 196989042042184812177465, 4920003443512044486873, 1000, Err(PoolError::Overflow)),
    (353876037373348920671551313654721913, 275224734066963081869858827736388777, 271995460394396609583393314918439355, 85, Err(PoolError::Overflow)),
    (89407614412692859492483286126, 885755057581, 855, 1000000, Err(PoolError::Overflow)),
    (414640872228, 312971567760, 336974825438, 10, Ok(257921087879)),
    (907211090585230853845011287567215107, 401299793268938, 935904056608667898616563, 1000, Err(PoolError::Overflow)),
    (32415764340331727528838777251485795565, 33876781399311209605662530762270934557, 18358423018966768773335282629959940009, 1000000, Err(PoolError::Overflow)),
    (578010768495329882258118, 252204684348092495347218, 152341409725681997463284, 10, Err(PoolError::Overflow)),
    (307104928424, 478177551148, 284727138515, 85, Ok(283399980594)),
    (230, 212, 12, 85, Ok(12)),
    (360047822395125445539357476849, 908626703644795284537087420270, 176474768649971649817773182934, 1000000, Err(PoolError::Overflow)),
    (532, 551, 310, 1000000, Ok(310)),
    (51197205772789935456598231057973048619, 82797979536173350487447624534724394632, 2708936939880609909693399575025471821, 10, Err(PoolError::Overflow)),
    (698104760940571737503, 220957, 1, 1, Err(PoolError::ConvergenceFailure)),
    (842304448837146414804278487466926998, 1, 323583578242379184890426204127039442, 2, Err(PoolError::Overflow)),
    (589665343886821421873583041566893809, 131364139387851731680616704991, 833, 1000000, Err(PoolError::Overflow)),
    (834394817271585115725413204222916570, 679761033078566637002447343842526841, 702142883607488146189719260616344904, 85, Err(PoolError::Overflow)),
    (747717364046283590577627, 785562337457066564378707, 469259409530181423351824, 100, Err(PoolError::Overflow)),
    (77, 138, 12, 1000, Ok(13)),
    (765252758645787740843, 599222835689879071047053703886926449, 94312, 1, Err(PoolError::Overflow)),
    (986795579135543489558824363608, 437079, 68396750553, 100, Err(PoolError::Overflow)),
    (557653400966395668306, 1400026865562917961431, 69966962325697490542, 1000000, Ok(69967040094386146526)),
    (601314477309182503600639706075134127, 828543668280944496722182439006946588, 199242903041894526628905254082404295, 1000, Err(PoolError::Overflow)),
    (357023577, 529966350, 351847635, 10, Ok(334943162)),
    (821953, 523406, 596830, 1000000, Ok(523404)),
    (718952036245419753386405, 653326190555370896559755, 620809666494426832908083, 10, Err(PoolError::Overflow)),
    (0, 9914653156783631022694844610, 713552, 2, Err(PoolError::InsufficientFunds)),
    (388211437229203305320029964896013886, 16, 331206469961, 1, Err(PoolError::Overflow)),
];

const RATIOS: &[(u128, u128, u128, Result<u128, PoolError>)] = &[
    (393075024239926822684188478652010095, 2, 979566978010547435664982, Ok(802548540454)),
    (980834, 176027157913338783454910179267404814096, 473, Err(PoolError::Overflow)),
    (898178, 267107064203575615061241945615, 185086421779456631102197477281266276020, Ok(0)),
    (273714473643056513453416433695033466712, 0, 50688696734974486425446413373976151591, Ok(0)),
    (182421585747459679248030871083239806843, 315689269944771163919095112862698359080, 331242679971890285384904088206078318025, Ok(173856029759420078415108672401370856554)),
    (3, 3, 518394289942168895, Ok(0)),
    (314145998035055171184668667576622006099, 769406964026807121153975, 238287179708029830084664116633512291197, Ok(1014347976695525398269970)),
    (402652539309106394940543, 78979668657824573378674827465135486431, 450132146963973782, Err(PoolError::Overflow)),
    (76867, 29376977923632621397053180258625754138, 82306126388859935548083586507095483, Ok(27435626)),
    (508882205877086433, 884142199919, 216610405779598899216214319445192505739, Ok(0)),
    (329398198342164181345192928360380731953, 143173939283663334724480682522976067155, 115907545470103, Err(PoolError::Overflow)),
    (62430090770609970244420850843267822518, 49875403371390750061650433880194591984, 339987212691308586088618708642967372341, Ok(9158361972053986529598767004400733515)),
    (514604233225790103501854793143, 866657244446342234271468, 39270563503695692597106101903824476191, Ok(11356737641564910)),
    (248435797355789317384568320633236741760, 191240130542728912520242699816695254640, 372227018440619, Err(PoolError::Overflow)),
    (521620256540370046650191017193, 184696997064307713058127294494114196949, 213774126759751800857075866419178084441, Ok(450670511212953948321717334818)),
    (137335168642016164487415264398511426, 224927128954788156159366618325279257145, 190197357659479693196998220043377468825, Ok(162412378212293891636137577234844460)),
    (204692674458789641093532711803340585234, 474320365007, 965503907124292666, Ok(100558789402240511822577164260012)),
    (114418920780171792381757472498263363124, 251097643041286553290275459174869840543, 224371746927467400176782186535232911639, Ok(128047856829837247868869601564530257364)),
    (308740014768381603334349729709294502450, 183182610358223234758101777318703020426, 85179304285641408578986943052798138965, Err(PoolError::Overflow)),
    (48720958225875937238759827768539136880, 114687777601776922126727858715257445501, 533, Err(PoolError::Overflow)),
    (25206510022734650247231299026374225991, 35287562461486950, 0, Err(PoolError::Overflow)),
    (131295769883496049321518534883211640537, 90423069299614557384418662329257828127, 284655764309538957387630622867408517012, Ok(41707100250433140296209726593668445667)),
    (174752491258092107248634877192897113188, 60993247434012213354256051146890229326, 25203079191354000459164506113094525615, Err(PoolError::Overflow)),
    (305303597830750310342640730384387670735, 64271042170024249095255017892737615725, 120619817384249765099838261856967053155, Ok(162677915091939879114462715864509362465)),
    (724, 43942832237393426674011543179965253542, 76053307065842123593588281056220063960, Ok(418)),
    (4, 390322819254047283243, 90442987015069601322732291736088790425, Ok(0)),
    (250047817781380024220529, 728165136861119327148, 795787137, Ok(228800008181839727584026618787398011)),
    (201630883656305094186531649098159584090, 100, 114360890892910249292192356038825289033, Ok(176)),
    (593490846255556529171728712394, 157153745571628829835882116778998009104, 275, Err(PoolError::Overflow)),
    (791918852455, 31428409746500467938447264849750924747, 305646054656021164462111665408920223762, Ok(81429973663)),
    (294, 972766599169313971660, 329839685403058573858648193415143225239, Ok(0)),
    (676056386623209, 334677872907631752008480017859736525035, 52365357875234135494524625693200382265, Ok(4320816712066888)),
    (81746649655851800721733556388729366838, 496, 8300660145781935546526959007700680198, Ok(4884)),
    (168030886540321429905760636875651371792, 334434914017466595472988523193415563085, 34, Err(PoolError::Overflow)),
    (96949810895172467802580236224904031047, 223254424985761279604743558834662062582, 944840552367575, Err(PoolError::Overflow)),
    (0, 117137213336783687682749522799851376555, 667, Ok(0)),
    (276337319890469808303762127527802125601, 272894197301931690454118818549832586702, 222850363413820686452785877053233635946, Ok(338392318239316213255375442549321273369)),
    (303854676398328169745036858084329955546, 328797998993752349098697724767244004668, 10977424035527417224201427063936567761, Err(PoolError::Overflow)),
    (198209764539147653760773820679355610, 73290874159522602696979512336170171543, 894670186718895170, Err(PoolError::Overflow)),
    (339375200920866209194988524016903866517, 26621565408433414892167739929522272097, 584626020222952, Err(PoolError::Overflow)),
    (0, 206546475193070208824282736915606415836, 295497102, Ok(0)),
    (310148594091678622855, 121313481183631892664805165682488965107, 182374482067836766830680044112983243033, Ok(206307402257490787937)),
    (573358641907106, 797072, 31067949446713, Ok(14709954)),
    (227442262038167289344222353939478868276, 718471192400580280, 935188342374664412476818233573626220, Ok(174735618275468268317)),
    (245662392010051541137885225519827716, 10286175603470557506554892448808771792, 54519396243115238962211435656119109825, Ok(46349128521450111437056874382597516)),
    (698, 198648190786166113948281005643818726970, 321470207468560742340436111390665412815, Ok(431)),
    (175021994980860018155046195215167793113, 1, 99882, Ok(1752287649234697124156967173416309)),
    (99, 433821111698643473564652179280070819, 34358428716738694684630886866321738968, Ok(1)),
    (91637318436218403096194863466536660299, 103588215331972726543435316990285941257, 958259030424578966, Err(PoolError::Overflow)),
    (45222228835329034612052409471491776140, 753350548982227930464636601954, 203914412416277428722, Err(PoolError::Overflow)),
    (678734, 462, 315, Ok(995476)),
    (10482669980477343138553674943753272228, 324734726905931418487652115675679136846, 236, Err(PoolError::Overflow)),
    (2654524937252662649259500475351889005, 1078394751244395736636433278660235343, 107692412897722765286260674111014551155, Ok(26581498940870723598823010504649284)),
    (512770363732376517742546, 308861217133642594328144620719944280482, 317577262206993361509996, Err(PoolError::Overflow)),
    (163195782392485416726136911518296942376, 72956913819459842151668295608130850960, 145243669866, Err(PoolError::Overflow)),
    (314516416724511840200907522618459664132, 199849974144372289766423821504572871144, 508609199352189, Err(PoolError::Overflow)),
    (316111652471411025365332735263228393148, 761051899925805208438190539474, 5701108719569975545130271726091799242, Ok(42198348695970762028240485260476)),
    (139580478184655778862509182652550465947, 205610752876267847078261381696789736966, 256915737306851830712981288294492261036, Ok(111706847961980249834903901023929685453)),
    (994036330200, 901975187540, 335555184813788614372348855594043943595, Ok(0)),
    (300046327813408191546692834465029921083, 143212468963734597948634304962465517280, 174028968593939210699213348951048678255, Ok(246915072570031642042801256122650680802)),
    (4, 111388478238295886763968386324272878776, 858251915407741884081586041937, Ok(519141180)),
    (0, 743868, 72076411441074709955278, Ok(0)),
    (982997, 377293633, 106096286263785232328527572189734134959, Ok(0)),
    (938032650054, 608961833068118, 34213511138331569280823425616786045727, Ok(0)),
    (371691229224699198969807, 742759685236849032, 215075512016089933253666283886771695208, Ok(1283)),
    (50, 56637159597480804232303845401614371295, 0, Err(PoolError::Overflow)),
    (87367942902358323989085282540827556130, 692724183139257425899294, 192047308833035580910084833369894527100, Ok(315140510155290464408771)),
    (108375204867309, 130992827238017688280853860338966545, 867110528289486315916964, Ok(16372047189961805995951537)),
    (282102992039957255844853800700, 320528, 198213631078037819859590472276999589755, Ok(0)),
    (4, 77750746925421079724552467002159624271, 174759217049579719605253922241, Ok(1779608497)),
    (154400799278604563220136431069211876063, 529117774579742573, 339096841156497829886024309341967177367, Ok(240922938205504698)),
    (81425726859068603838031417807898653708, 23547958352833952723600567003591509749, 209158763155267997317942801516272510760, Ok(9167244996104708708312244152839025754)),
    (793, 273284991855262894223031655522120696155, 798258514551567943, Ok(271484731563390754106679)),
    (92012774067239169193416306999341975, 202227794309766783700506737744444825254, 747425884925115397698602644538891954, Ok(24895498969513178524683089445411937579)),
    (1784043441066332519065847067195993577, 164701339164159981536791540098904865925, 826069583, Err(PoolError::Overflow)),
    (55710997800560205287636755593739521367, 195683729096114858300502247789552733691, 291656066548798100279, Err(PoolError::Overflow)),
    (182597601963895609535679518549646788297, 245468083370577127366375063333201950040, 272848224277406718651802949007452051545, Ok(164274051996652393678699455856931663791)),
    (129377324581409018487568518801142817426, 78, 1, Err(PoolError::Overflow)),
    (240956904888421287135349185031, 346673938363023, 1, Err(PoolError::Overflow)),
    (314884505362154, 95756908848768897482973254641519590074, 44, Err(PoolError::Overflow)),
];

#[test]
fn invariants_of_many_pools() {
    for &(amp, x0, x1, expected) in INVARIANTS {
        assert_eq!(compute_d(amp, x0, x1), expected, "D({}; {}, {})", amp, x0, x1);
    }
}

#[test]
fn balances_for_many_invariants() {
    for &(amp, x, d, expected) in BALANCES {
        assert_eq!(compute_y(amp, x, d), expected, "y({}; {}, {})", amp, x, d);
    }
}

#[test]
fn ask_amounts_of_many_swaps() {
    for &(offer_pool, ask_pool, offer, amp, expected) in ASKS {
        assert_eq!(
            calc_ask_amount(offer_pool, ask_pool, offer, amp),
            expected,
            "ask({}, {}, {}; {})",
            offer_pool,
            ask_pool,
            offer,
            amp
        );
    }
}

#[test]
fn ratios_of_many_amounts() {
    for &(a, b, c, expected) in RATIOS {
        assert_eq!(mul_div(a, b, c), expected, "{} * {} / {}", a, b, c);
    }
}
