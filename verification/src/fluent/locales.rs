//! The card templates: Fluent messages that give each rank its default weight
//! and each suit and rank its texts, per language.

use vstd::prelude::*;

verus! {

/// Messages shared by every language: the default weight of each rank under
/// `<rank>-weight`, and the symbol of each suit under `<suit>-symbol`.
pub const CORE_TEMPLATES: &'static str = "\
# Default weights of the ranks.\n\
ace-weight = 14\n\
king-weight = 13\n\
queen-weight = 12\n\
jack-weight = 11\n\
ten-weight = 10\n\
nine-weight = 9\n\
eight-weight = 8\n\
seven-weight = 7\n\
six-weight = 6\n\
five-weight = 5\n\
four-weight = 4\n\
three-weight = 3\n\
two-weight = 2\n\
big-joker-weight = 16\n\
little-joker-weight = 15\n\
daus-weight = 14\n\
ober-weight = 12\n\
unter-weight = 11\n\
knight-weight = 11\n\
page-weight = 10\n\
fool-weight = 23\n\
magician-weight = 22\n\
priestess-weight = 21\n\
empress-weight = 20\n\
emperor-weight = 19\n\
hierophant-weight = 18\n\
lovers-weight = 17\n\
chariot-weight = 16\n\
strength-weight = 15\n\
hermit-weight = 14\n\
fortune-weight = 13\n\
justice-weight = 12\n\
hanged-weight = 11\n\
death-weight = 10\n\
temperance-weight = 9\n\
devil-weight = 8\n\
tower-weight = 7\n\
star-weight = 6\n\
moon-weight = 5\n\
sun-weight = 4\n\
judgement-weight = 3\n\
world-weight = 2\n\
# Symbols of the suits.\n\
spades-symbol = ♠\n\
hearts-symbol = ♥\n\
diamonds-symbol = ♦\n\
clubs-symbol = ♣\n\
spades-light-symbol = ♤\n\
hearts-light-symbol = ♡\n\
diamonds-light-symbol = ♢\n\
clubs-light-symbol = ♧\n\
eichel-symbol = ♣\n\
laub-symbol = ♠\n\
herz-symbol = ♥\n\
schellen-symbol = ♦\n\
major-arcana-symbol = M\n\
wands-symbol = W\n\
cups-symbol = C\n\
swords-symbol = S\n\
pentacles-symbol = P\n\
";

/// The English texts: `<name>-long` and `<name>-index` for suits and ranks,
/// and `<suit>-letter`.
pub const US_ENGLISH_TEMPLATES: &'static str = "\
# Suits.\n\
spades-long = Spades\n\
spades-letter = S\n\
spades-index = S\n\
hearts-long = Hearts\n\
hearts-letter = H\n\
hearts-index = H\n\
diamonds-long = Diamonds\n\
diamonds-letter = D\n\
diamonds-index = D\n\
clubs-long = Clubs\n\
clubs-letter = C\n\
clubs-index = C\n\
eichel-long = Acorns\n\
eichel-letter = E\n\
eichel-index = E\n\
laub-long = Leaves\n\
laub-letter = L\n\
laub-index = L\n\
herz-long = Hearts\n\
herz-letter = H\n\
herz-index = H\n\
schellen-long = Bells\n\
schellen-letter = S\n\
schellen-index = S\n\
major-arcana-long = Major Arcana\n\
major-arcana-letter = M\n\
major-arcana-index = M\n\
wands-long = Wands\n\
wands-letter = W\n\
wands-index = W\n\
cups-long = Cups\n\
cups-letter = C\n\
cups-index = C\n\
swords-long = Swords\n\
swords-letter = S\n\
swords-index = S\n\
pentacles-long = Pentacles\n\
pentacles-letter = P\n\
pentacles-index = P\n\
# Ranks.\n\
ace-long = Ace\n\
ace-index = A\n\
king-long = King\n\
king-index = K\n\
queen-long = Queen\n\
queen-index = Q\n\
jack-long = Jack\n\
jack-index = J\n\
ten-long = Ten\n\
ten-index = T\n\
nine-long = Nine\n\
nine-index = 9\n\
eight-long = Eight\n\
eight-index = 8\n\
seven-long = Seven\n\
seven-index = 7\n\
six-long = Six\n\
six-index = 6\n\
five-long = Five\n\
five-index = 5\n\
four-long = Four\n\
four-index = 4\n\
three-long = Three\n\
three-index = 3\n\
two-long = Two\n\
two-index = 2\n\
big-joker-long = Big Joker\n\
big-joker-index = B\n\
little-joker-long = Little Joker\n\
little-joker-index = L\n\
daus-long = Deuce\n\
daus-index = D\n\
ober-long = Ober\n\
ober-index = O\n\
unter-long = Unter\n\
unter-index = U\n\
knight-long = Knight\n\
knight-index = Kn\n\
page-long = Page\n\
page-index = P\n\
fool-long = The Fool\n\
fool-index = 0\n\
magician-long = The Magician\n\
magician-index = I\n\
priestess-long = The High Priestess\n\
priestess-index = II\n\
empress-long = The Empress\n\
empress-index = III\n\
emperor-long = The Emperor\n\
emperor-index = IV\n\
hierophant-long = The Hierophant\n\
hierophant-index = V\n\
lovers-long = The Lovers\n\
lovers-index = VI\n\
chariot-long = The Chariot\n\
chariot-index = VII\n\
strength-long = Strength\n\
strength-index = VIII\n\
hermit-long = The Hermit\n\
hermit-index = IX\n\
fortune-long = Wheel of Fortune\n\
fortune-index = X\n\
justice-long = Justice\n\
justice-index = XI\n\
hanged-long = The Hanged Man\n\
hanged-index = XII\n\
death-long = Death\n\
death-index = XIII\n\
temperance-long = Temperance\n\
temperance-index = XIV\n\
devil-long = The Devil\n\
devil-index = XV\n\
tower-long = The Tower\n\
tower-index = XVI\n\
star-long = The Star\n\
star-index = XVII\n\
moon-long = The Moon\n\
moon-index = XVIII\n\
sun-long = The Sun\n\
sun-index = XIX\n\
judgement-long = Judgement\n\
judgement-index = XX\n\
world-long = The World\n\
world-index = XXI\n\
";

/// The German texts, under the same keys as the English ones.
pub const GERMAN_TEMPLATES: &'static str = "\
# Suits.\n\
spades-long = Spaten\n\
spades-letter = S\n\
spades-index = S\n\
hearts-long = Herzen\n\
hearts-letter = H\n\
hearts-index = H\n\
diamonds-long = Diamanten\n\
diamonds-letter = D\n\
diamonds-index = D\n\
clubs-long = Klee\n\
clubs-letter = K\n\
clubs-index = K\n\
eichel-long = Eichel\n\
eichel-letter = E\n\
eichel-index = E\n\
laub-long = Laub\n\
laub-letter = L\n\
laub-index = L\n\
herz-long = Herz\n\
herz-letter = H\n\
herz-index = H\n\
schellen-long = Schellen\n\
schellen-letter = S\n\
schellen-index = S\n\
major-arcana-long = Große Arkana\n\
major-arcana-letter = G\n\
major-arcana-index = G\n\
wands-long = Stäbe\n\
wands-letter = S\n\
wands-index = S\n\
cups-long = Kelche\n\
cups-letter = K\n\
cups-index = K\n\
swords-long = Schwerter\n\
swords-letter = S\n\
swords-index = S\n\
pentacles-long = Münzen\n\
pentacles-letter = M\n\
pentacles-index = M\n\
# Ranks.\n\
ace-long = Ass\n\
ace-index = A\n\
king-long = König\n\
king-index = K\n\
queen-long = Dame\n\
queen-index = D\n\
jack-long = Bube\n\
jack-index = B\n\
ten-long = Zehn\n\
ten-index = Z\n\
nine-long = Neun\n\
nine-index = 9\n\
eight-long = Acht\n\
eight-index = 8\n\
seven-long = Sieben\n\
seven-index = 7\n\
six-long = Sechs\n\
six-index = 6\n\
five-long = Fünf\n\
five-index = 5\n\
four-long = Vier\n\
four-index = 4\n\
three-long = Drei\n\
three-index = 3\n\
two-long = Zwei\n\
two-index = 2\n\
big-joker-long = Großer Joker\n\
big-joker-index = G\n\
little-joker-long = Kleiner Joker\n\
little-joker-index = L\n\
daus-long = Daus\n\
daus-index = D\n\
ober-long = Ober\n\
ober-index = O\n\
unter-long = Unter\n\
unter-index = U\n\
knight-long = Ritter\n\
knight-index = R\n\
page-long = Page\n\
page-index = P\n\
fool-long = Der Narr\n\
fool-index = 0\n\
magician-long = Der Magier\n\
magician-index = I\n\
priestess-long = Die Hohepriesterin\n\
priestess-index = II\n\
empress-long = Die Herrscherin\n\
empress-index = III\n\
emperor-long = Der Herrscher\n\
emperor-index = IV\n\
hierophant-long = Der Hierophant\n\
hierophant-index = V\n\
lovers-long = Die Liebenden\n\
lovers-index = VI\n\
chariot-long = Der Wagen\n\
chariot-index = VII\n\
strength-long = Die Kraft\n\
strength-index = VIII\n\
hermit-long = Der Eremit\n\
hermit-index = IX\n\
fortune-long = Rad des Schicksals\n\
fortune-index = X\n\
justice-long = Gerechtigkeit\n\
justice-index = XI\n\
hanged-long = Der Gehängte\n\
hanged-index = XII\n\
death-long = Der Tod\n\
death-index = XIII\n\
temperance-long = Die Mäßigkeit\n\
temperance-index = XIV\n\
devil-long = Der Teufel\n\
devil-index = XV\n\
tower-long = Der Turm\n\
tower-index = XVI\n\
star-long = Der Stern\n\
star-index = XVII\n\
moon-long = Der Mond\n\
moon-index = XVIII\n\
sun-long = Die Sonne\n\
sun-index = XIX\n\
judgement-long = Das Gericht\n\
judgement-index = XX\n\
world-long = Die Welt\n\
world-index = XXI\n\
";

} // verus!
